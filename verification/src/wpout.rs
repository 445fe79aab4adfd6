//! Reading what the external tools printed.
//!
//! WP's printed obligations, Why3's dumps and E-ACSL's runtime report are text formats owned by
//! those tools, so they are parsed in one place.

use crate::advice::COVERAGE_WARNING;
use crate::json::{lemma_models_push, lemma_take_next, models, Json, JsonView};
use crate::markers::line_view;
use crate::order::{insert_sorted, law_text_order, lemma_kept, sort_by, text_lt, text_order};
use crate::outside::{capture_group, decode_lossy, regex_group, utf8_lossy};
use crate::text::{
    after_last, after_last_spec, ascii_lower, before, before_spec, begins, cat2, cat3, chars_of,
    contains, decimal, digit, ends, ends_with, find_chars, find_from_spec, first_at, is_digit,
    is_white, join, join_spec, lines, lines_spec, occurs, opt_string, opt_text, owned, parse_spec,
    parse_u64, same, split_once, split_once_spec, stands_at, starts_with, text_between, texts,
    to_ascii_lowercase, trim, trim_end_char, trim_end_char_spec, trim_prefix, trim_prefix_spec,
    trim_spec, words, words_spec,
};
use crate::verdicts::is_text;
use vstd::prelude::*;
use vstd::string::*;

verus! {

// ---------------------------------------------------------------------------
// Text helpers
// ---------------------------------------------------------------------------

/// What follows a prefix, where a text begins with it.
pub open spec fn strip_prefix_spec(s: Seq<char>, p: Seq<char>) -> Option<Seq<char>> {
    if begins(s, p) {
        Some(s.subrange(p.len() as int, s.len() as int))
    } else {
        None
    }
}

/// What follows a prefix, where a text begins with it.
pub fn strip_prefix(s: &str, p: &str) -> (r: Option<String>)
    ensures
        opt_string(r) == strip_prefix_spec(s@, p@),
{
    if starts_with(s, p) {
        let cs = chars_of(s);
        let n: usize = p.unicode_len();
        Some(text_between(&cs, n, cs.len()))
    } else {
        None
    }
}

/// What precedes a suffix, where a text ends with it.
pub open spec fn strip_suffix_spec(s: Seq<char>, p: Seq<char>) -> Option<Seq<char>> {
    if ends(s, p) {
        Some(s.subrange(0, s.len() - p.len()))
    } else {
        None
    }
}

/// What precedes a suffix, where a text ends with it.
pub fn strip_suffix(s: &str, p: &str) -> (r: Option<String>)
    ensures
        opt_string(r) == strip_suffix_spec(s@, p@),
{
    if ends_with(s, p) {
        let cs = chars_of(s);
        let n: usize = p.unicode_len();
        Some(text_between(&cs, 0, cs.len() - n))
    } else {
        None
    }
}

/// Whether every character equals `c`.
pub open spec fn all_char(s: Seq<char>, c: char) -> bool {
    forall|i: int| 0 <= i < s.len() ==> #[trigger] s[i] == c
}

fn only_char(s: &str, c: char) -> (r: bool)
    ensures
        r == all_char(s@, c),
{
    let cs = chars_of(s);
    let mut i: usize = 0;
    while i < cs.len()
        invariant
            cs@ == s@,
            i <= cs@.len(),
            forall|k: int| 0 <= k < i ==> #[trigger] s@[k] == c,
        decreases cs@.len() - i,
    {
        if cs[i] != c {
            assert(s@[i as int] != c);
            return false;
        }
        i = i + 1;
    }
    true
}

// ---------------------------------------------------------------------------
// Proved goals
// ---------------------------------------------------------------------------

/// A number that a `u64` holds, as an optional integer.
pub open spec fn read_number(s: Seq<char>) -> Option<int> {
    match parse_spec(s, u64::MAX as nat) {
        Some(n) => Some(n as int),
        None => None,
    }
}

fn number_in(s: &str) -> (r: Option<u64>)
    ensures
        line_view(r) == read_number(s@),
{
    parse_u64(s)
}

/// What a line says of the goals that proved and of all goals, where it says it.
pub open spec fn proved_line(line: Seq<char>) -> Option<(Option<int>, Option<int>)> {
    match split_once_spec(line, "Proved goals:"@) {
        Some((_, rest)) => match split_once_spec(rest, "/"@) {
            Some((proved, total)) => Some(
                (
                    read_number(trim_spec(proved)),
                    if words_spec(total).len() > 0 {
                        read_number(words_spec(total)[0])
                    } else {
                        None
                    },
                ),
            ),
            None => None,
        },
        None => None,
    }
}

/// What the last line that says it says of the goals that proved and of all goals.
pub open spec fn proved_lines(ls: Seq<Seq<char>>) -> (Option<int>, Option<int>)
    decreases ls.len(),
{
    if ls.len() == 0 {
        (None, None)
    } else {
        match proved_line(ls.last()) {
            Some(p) => p,
            None => proved_lines(ls.drop_last()),
        }
    }
}

fn read_proved_line(line: &str) -> (r: Option<(Option<u64>, Option<u64>)>)
    ensures
        match r {
            Some(p) => proved_line(line@) == Some((line_view(p.0), line_view(p.1))),
            None => proved_line(line@) is None,
        },
{
    match split_once(line, "Proved goals:") {
        Some((_, rest)) => match split_once(rest.as_str(), "/") {
            Some((proved, total)) => {
                let ws = words(total.as_str());
                assert(texts(ws@).len() == ws@.len());
                let all: Option<u64> = if ws.len() > 0 {
                    assert(texts(ws@)[0] == ws@[0]@);
                    number_in(ws[0].as_str())
                } else {
                    None
                };
                Some((number_in(trim(proved.as_str()).as_str()), all))
            },
            None => None,
        },
        None => None,
    }
}

/// How many goals proved and how many there were, as the last line that says it says it.
pub fn parse_proved_goals(output: &str) -> (r: (Option<u64>, Option<u64>))
    ensures
        (line_view(r.0), line_view(r.1)) == proved_lines(lines_spec(output@)),
{
    let ls = lines(output);
    let ghost all = texts(ls@);
    let mut n: usize = ls.len();
    assert(all.subrange(0, n as int) =~= all);
    while n > 0
        invariant
            n <= ls@.len(),
            all == texts(ls@),
            all == lines_spec(output@),
            proved_lines(all) == proved_lines(all.subrange(0, n as int)),
        decreases n,
    {
        let ghost some = all.subrange(0, n as int);
        assert(some.last() == ls@[n - 1]@);
        assert(some.drop_last() =~= all.subrange(0, n - 1));
        match read_proved_line(ls[n - 1].as_str()) {
            Some(p) => {
                return p;
            },
            None => {},
        }
        n = n - 1;
    }
    (None, None)
}

// ---------------------------------------------------------------------------
// The runtime checker's report
// ---------------------------------------------------------------------------

/// What a run of the runtime checker does and does not cover.
pub open spec fn runtime_boundaries() -> JsonView {
    JsonView::object().with("coverage_warning"@, JsonView::Str(COVERAGE_WARNING@)).with(
        "assigns_clauses"@,
        JsonView::Str("E-ACSL does not prove assigns clauses; use WP for frame conditions."@),
    ).with(
        "integer_arithmetic"@,
        JsonView::Str("ACSL integer arithmetic is checked with unbounded GMP semantics."@),
    ).with(
        "executed_paths_only"@,
        JsonView::Str("A clean run covers only the paths executed by this driver."@),
    )
}

/// What a run of the runtime checker does not cover.
pub fn runtime_check_coverage_warning() -> (r: &'static str)
    ensures
        r@ == COVERAGE_WARNING@,
{
    COVERAGE_WARNING
}

/// What a run of the runtime checker does and does not cover.
pub fn e_acsl_runtime_boundaries() -> (r: Json)
    ensures
        r@ == runtime_boundaries(),
{
    Json::object().with("coverage_warning", Json::str(runtime_check_coverage_warning())).with(
        "assigns_clauses",
        Json::str("E-ACSL does not prove assigns clauses; use WP for frame conditions."),
    ).with(
        "integer_arithmetic",
        Json::str("ACSL integer arithmetic is checked with unbounded GMP semantics."),
    ).with(
        "executed_paths_only",
        Json::str("A clean run covers only the paths executed by this driver."),
    )
}

/// The pattern of the line that locates a failed check.
pub const LOCATION_PATTERN: &'static str = "^(.+):(\\d+): Error: (.+) failed:$";

/// Where a check failed and of what kind it is, as its line has it.
pub struct ErrorLocation {
    pub file: Option<String>,
    pub line: Option<String>,
    pub kind: Option<String>,
}

/// Where a check failed and of what kind it is, as a mathematical object.
pub struct ErrorLocationView {
    pub file: Option<Seq<char>>,
    pub line: Option<Seq<char>>,
    pub kind: Option<Seq<char>>,
}

impl View for ErrorLocation {
    type V = ErrorLocationView;

    open spec fn view(&self) -> ErrorLocationView {
        ErrorLocationView {
            file: opt_string(self.file),
            line: opt_string(self.line),
            kind: opt_string(self.kind),
        }
    }
}

/// The location behind an optional one.
pub open spec fn opt_location(o: Option<ErrorLocation>) -> Option<ErrorLocationView> {
    match o {
        Some(l) => Some(l@),
        None => None,
    }
}

/// The locations behind some optional ones.
pub open spec fn opt_locations(v: Seq<Option<ErrorLocation>>) -> Seq<Option<ErrorLocationView>> {
    v.map_values(|o: Option<ErrorLocation>| opt_location(o))
}

/// The location that the pattern finds in a line.
pub open spec fn located(line: Seq<char>) -> Option<ErrorLocationView> {
    let t = trim_spec(line);
    if regex_group(LOCATION_PATTERN@, t, 0) is Some {
        Some(
            ErrorLocationView {
                file: regex_group(LOCATION_PATTERN@, t, 1),
                line: regex_group(LOCATION_PATTERN@, t, 2),
                kind: regex_group(LOCATION_PATTERN@, t, 3),
            },
        )
    } else {
        None
    }
}

/// The location that the pattern finds in each line.
pub fn find_locations(ls: &Vec<String>) -> (r: Vec<Option<ErrorLocation>>)
    ensures
        opt_locations(r@) == texts(ls@).map_values(|l: Seq<char>| located(l)),
{
    let mut out: Vec<Option<ErrorLocation>> = Vec::new();
    let mut i: usize = 0;
    while i < ls.len()
        invariant
            i <= ls@.len(),
            out@.len() == i,
            forall|k: int| 0 <= k < i ==> opt_location(#[trigger] out@[k]) == located(ls@[k]@),
        decreases ls@.len() - i,
    {
        let trimmed = trim(ls[i].as_str());
        let t = trimmed.as_str();
        if capture_group(LOCATION_PATTERN, t, 0).is_some() {
            out.push(
                Some(
                    ErrorLocation {
                        file: capture_group(LOCATION_PATTERN, t, 1),
                        line: capture_group(LOCATION_PATTERN, t, 2),
                        kind: capture_group(LOCATION_PATTERN, t, 3),
                    },
                ),
            );
        } else {
            out.push(None);
        }
        i = i + 1;
    }
    assert(opt_locations(out@) =~= texts(ls@).map_values(|l: Seq<char>| located(l)));
    out
}

/// What has been read of a violation.
pub struct Violation {
    pub function: Option<String>,
    pub file: Option<String>,
    pub line: Option<u64>,
    pub kind: Option<String>,
    pub predicate: Vec<String>,
    pub values: Vec<String>,
    pub in_predicate: bool,
    pub in_values: bool,
}

/// What has been read of a violation, as a mathematical object.
pub struct ViolationView {
    pub function: Option<Seq<char>>,
    pub file: Option<Seq<char>>,
    pub line: Option<int>,
    pub kind: Option<Seq<char>>,
    pub predicate: Seq<Seq<char>>,
    pub values: Seq<Seq<char>>,
    pub in_predicate: bool,
    pub in_values: bool,
}

impl View for Violation {
    type V = ViolationView;

    open spec fn view(&self) -> ViolationView {
        ViolationView {
            function: opt_string(self.function),
            file: opt_string(self.file),
            line: line_view(self.line),
            kind: opt_string(self.kind),
            predicate: texts(self.predicate@),
            values: texts(self.values@),
            in_predicate: self.in_predicate,
            in_values: self.in_values,
        }
    }
}

/// Nothing read yet.
pub open spec fn no_violation() -> ViolationView {
    ViolationView {
        function: None,
        file: None,
        line: None,
        kind: None,
        predicate: Seq::empty(),
        values: Seq::empty(),
        in_predicate: false,
        in_values: false,
    }
}

/// What one more line adds to what has been read of a violation.
pub open spec fn violation_step(
    s: ViolationView,
    line: Seq<char>,
    location: Option<ErrorLocationView>,
) -> ViolationView {
    let t = trim_spec(line);
    match split_once_spec(t, ": In function '"@) {
        Some((path, rest)) => ViolationView {
            function: strip_suffix_spec(rest, "'"@),
            file: Some(path),
            ..s
        },
        None => match location {
            Some(l) => ViolationView {
                file: l.file,
                line: match l.line {
                    Some(n) => read_number(n),
                    None => None,
                },
                kind: l.kind,
                in_predicate: false,
                in_values: false,
                ..s
            },
            None => if t == "The failing predicate is:"@ {
                ViolationView { in_predicate: true, in_values: false, ..s }
            } else if t == "With values at failure point:"@ {
                ViolationView { in_predicate: false, in_values: true, ..s }
            } else if s.in_predicate {
                if t.len() > 0 {
                    ViolationView {
                        predicate: s.predicate.push(trim_end_char_spec(t, '.')),
                        ..s
                    }
                } else {
                    s
                }
            } else if s.in_values && begins(t, "- "@) {
                ViolationView { values: s.values.push(trim_prefix_spec(t, "- "@)), ..s }
            } else {
                s
            },
        },
    }
}

/// What some lines, with the locations found in them, say of a violation.
pub open spec fn violation_of(ls: Seq<Seq<char>>, at: Seq<Option<ErrorLocationView>>) -> ViolationView
    decreases ls.len(),
{
    if ls.len() == 0 {
        no_violation()
    } else {
        violation_step(violation_of(ls.drop_last(), at), ls.last(), at[ls.len() - 1])
    }
}

/// How a violation is reported.
pub open spec fn violation_json(v: ViolationView) -> JsonView {
    JsonView::object().with("function"@, JsonView::opt_text(v.function)).with(
        "file"@,
        JsonView::opt_text(v.file),
    ).with("line"@, JsonView::opt_int(v.line)).with("kind"@, JsonView::opt_text(v.kind)).with(
        "predicate"@,
        JsonView::Str(join_spec(v.predicate, "\n"@)),
    ).with("values"@, JsonView::strings(v.values))
}

fn step_violation(state: Violation, line: &str, location: &Option<ErrorLocation>) -> (r: Violation)
    ensures
        r@ == violation_step(state@, line@, opt_location(*location)),
{
    let mut s = state;
    let trimmed = trim(line);
    let t = trimmed.as_str();
    match split_once(t, ": In function '") {
        Some((path, rest)) => {
            s.function = strip_suffix(rest.as_str(), "'");
            s.file = Some(path);
            return s;
        },
        None => {},
    }
    match location {
        Some(l) => {
            s.file = crate::markers::copy_opt(&l.file);
            s.line = match &l.line {
                Some(n) => number_in(n.as_str()),
                None => None,
            };
            s.kind = crate::markers::copy_opt(&l.kind);
            s.in_predicate = false;
            s.in_values = false;
            return s;
        },
        None => {},
    }
    if same(t, "The failing predicate is:") {
        s.in_predicate = true;
        s.in_values = false;
        return s;
    }
    if same(t, "With values at failure point:") {
        s.in_predicate = false;
        s.in_values = true;
        return s;
    }
    if s.in_predicate {
        if !t.is_empty() {
            let ghost before = s.predicate@;
            let part = trim_end_char(t, '.');
            s.predicate.push(part);
            assert(texts(s.predicate@) =~= texts(before).push(part@));
        }
    } else if s.in_values && starts_with(t, "- ") {
        let ghost before = s.values@;
        let part = trim_prefix(t, "- ");
        s.values.push(part);
        assert(texts(s.values@) =~= texts(before).push(part@));
    }
    s
}

/// How the violation that some lines speak of is reported, given the locations found in them.
pub fn parse_e_acsl_lines(ls: &Vec<String>, locations: &Vec<Option<ErrorLocation>>) -> (r: Json)
    requires
        ls@.len() == locations@.len(),
    ensures
        r@ == violation_json(violation_of(texts(ls@), opt_locations(locations@))),
{
    let ghost all = texts(ls@);
    let ghost at = opt_locations(locations@);
    let mut state = Violation {
        function: None,
        file: None,
        line: None,
        kind: None,
        predicate: Vec::new(),
        values: Vec::new(),
        in_predicate: false,
        in_values: false,
    };
    assert(texts(state.predicate@) =~= Seq::empty());
    assert(texts(state.values@) =~= Seq::empty());
    assert(all.subrange(0, 0) =~= Seq::empty());
    let mut i: usize = 0;
    while i < ls.len()
        invariant
            i <= ls@.len(),
            ls@.len() == locations@.len(),
            all == texts(ls@),
            at == opt_locations(locations@),
            state@ == violation_of(all.subrange(0, i as int), at),
        decreases ls@.len() - i,
    {
        proof {
            lemma_take_next(all, i as int);
        }
        assert(at[i as int] == opt_location(locations@[i as int]));
        state = step_violation(state, ls[i].as_str(), &locations[i]);
        i = i + 1;
    }
    assert(all.subrange(0, i as int) =~= all);
    Json::object().with(
        "function",
        match &state.function {
            Some(s) => Json::str(s.as_str()),
            None => Json::Null,
        },
    ).with(
        "file",
        match &state.file {
            Some(s) => Json::str(s.as_str()),
            None => Json::Null,
        },
    ).with("line", Json::opt_num(state.line)).with(
        "kind",
        match &state.kind {
            Some(s) => Json::str(s.as_str()),
            None => Json::Null,
        },
    ).with("predicate", Json::Str(join(&state.predicate, "\n"))).with(
        "values",
        Json::strings(&state.values),
    )
}

/// How the violation that the runtime checker's output speaks of is reported.
pub fn parse_e_acsl_violation(output: &str) -> (r: Json)
    ensures
        r@ == violation_json(
            violation_of(
                lines_spec(output@),
                lines_spec(output@).map_values(|l: Seq<char>| located(l)),
            ),
        ),
{
    let ls = lines(output);
    let locations = find_locations(&ls);
    proof {
        assert(opt_locations(locations@).len() == locations@.len());
        assert(texts(ls@).len() == ls@.len());
    }
    parse_e_acsl_lines(&ls, &locations)
}

// ---------------------------------------------------------------------------
// Captured bytes
// ---------------------------------------------------------------------------

/// The first `n` bytes, or all of them.
pub open spec fn first_bytes(bytes: Seq<u8>, n: int) -> Seq<u8> {
    if bytes.len() > n {
        bytes.subrange(0, n)
    } else {
        bytes
    }
}

/// The text of at most `max_bytes` bytes, and whether there were more.
pub fn capped_lossy_string(bytes: &[u8], max_bytes: usize) -> (r: (String, bool))
    ensures
        r.0@ == utf8_lossy(first_bytes(bytes@, max_bytes as int)),
        r.1 == (bytes@.len() > max_bytes),
{
    if bytes.len() > max_bytes {
        (decode_lossy(vstd::slice::slice_subrange(bytes, 0, max_bytes)), true)
    } else {
        (decode_lossy(bytes), false)
    }
}

// ---------------------------------------------------------------------------
// Why3 dumps
// ---------------------------------------------------------------------------

/// Whether a file name is that of a Why3 dump.
pub open spec fn dump_name(file_name: Seq<char>) -> bool {
    let extension = after_last_spec(file_name, "."@);
    occurs(file_name, "_Why3_"@) && (extension == "why"@ || extension == "psmt2"@ || extension
        == "smt2"@)
}

/// Whether a file name is that of a Why3 dump.
pub fn why3_dump_file_name(file_name: &str) -> (r: bool)
    ensures
        r == dump_name(file_name@),
{
    let extension = after_last(file_name, ".");
    contains(file_name, "_Why3_") && (same(extension.as_str(), "why") || same(
        extension.as_str(),
        "psmt2",
    ) || same(extension.as_str(), "smt2"))
}

/// The goal that a Why3 dump is of.
pub open spec fn dump_goal(file_name: Seq<char>) -> Seq<char> {
    let p = before_spec(file_name, "_Why3_"@);
    if begins(p, "typed_"@) {
        p
    } else {
        "typed_"@ + p
    }
}

/// The goal that a Why3 dump is of.
pub fn why3_dump_goal_id(file_name: &str) -> (r: String)
    ensures
        r@ == dump_goal(file_name@),
{
    let p = before(file_name, "_Why3_");
    if starts_with(p.as_str(), "typed_") {
        p
    } else {
        cat2("typed_", p.as_str())
    }
}

/// The names of Why3 dumps among some file names, in order.
pub open spec fn dump_names(names: Seq<Seq<char>>) -> Seq<Seq<char>> {
    sort_by(names.filter(|n: Seq<char>| dump_name(n)), text_order())
}

/// The first `n` texts, or all of them.
pub open spec fn first_texts(s: Seq<Seq<char>>, n: int) -> Seq<Seq<char>> {
    if s.len() <= n {
        s
    } else {
        s.subrange(0, n)
    }
}

/// The Why3 dumps to show among the files of a directory, in order and at most `max_files` of
/// them, and how many there are. Sorting comes before the cap, so that which dumps are shown does
/// not depend on how the directory was read.
pub fn select_why3_dumps(names: &Vec<String>, max_files: usize) -> (r: (Vec<String>, usize))
    ensures
        texts(r.0@) == first_texts(dump_names(texts(names@)), max_files as int),
        r.1 == dump_names(texts(names@)).len(),
{
    let ghost all = texts(names@);
    let ghost wanted = |n: Seq<char>| dump_name(n);
    let mut out: Vec<String> = Vec::new();
    let mut i: usize = 0;
    proof {
        reveal(Seq::filter);
        assert(all.subrange(0, 0).filter(wanted) =~= Seq::empty());
        assert(texts(out@) =~= Seq::empty());
    }
    while i < names.len()
        invariant
            i <= names@.len(),
            all == texts(names@),
            wanted == (|n: Seq<char>| dump_name(n)),
            texts(out@) == sort_by(all.subrange(0, i as int).filter(wanted), text_order()),
        decreases names@.len() - i,
    {
        proof {
            reveal(Seq::filter);
            lemma_take_next(all, i as int);
        }
        let ghost kept = all.subrange(0, i as int).filter(wanted);
        if why3_dump_file_name(names[i].as_str()) {
            assert(kept.push(all[i as int]).drop_last() =~= kept);
            insert_sorted(&mut out, names[i].clone());
        }
        i = i + 1;
    }
    assert(all.subrange(0, i as int) =~= all);
    assert(texts(out@).len() == out@.len());
    let total: usize = out.len();
    if total > max_files {
        let ghost full = texts(out@);
        out.truncate(max_files);
        assert(texts(out@) =~= full.subrange(0, max_files as int));
    }
    (out, total)
}

/// How a Why3 dump is reported.
pub open spec fn dump_entry(
    file_name: Seq<char>,
    path: Seq<char>,
    size: int,
    max_bytes: int,
    content: Option<Seq<char>>,
) -> JsonView {
    JsonView::object().with("file_name"@, JsonView::Str(file_name)).with(
        "path"@,
        JsonView::Str(path),
    ).with("goal_id"@, JsonView::Str(dump_goal(file_name))).with(
        "size_bytes"@,
        JsonView::num(size),
    ).with("truncated"@, JsonView::Bool(size > max_bytes)).with(
        "content"@,
        if size <= max_bytes {
            JsonView::opt_text(content)
        } else {
            JsonView::Null
        },
    )
}

/// How a Why3 dump is reported: its content is left out where it is too large.
pub fn why3_dump_entry(
    file_name: &str,
    path: &str,
    size_bytes: u64,
    max_bytes: u64,
    content: Option<&str>,
) -> (r: Json)
    ensures
        r@ == dump_entry(
            file_name@,
            path@,
            size_bytes as int,
            max_bytes as int,
            opt_text(content),
        ),
{
    let shown = if size_bytes <= max_bytes {
        Json::opt_str(content)
    } else {
        Json::Null
    };
    Json::object().with("file_name", Json::str(file_name)).with("path", Json::str(path)).with(
        "goal_id",
        Json::Str(why3_dump_goal_id(file_name)),
    ).with("size_bytes", Json::num(size_bytes)).with(
        "truncated",
        Json::Bool(size_bytes > max_bytes),
    ).with("content", shown)
}

/// A dump that was looked at: its name and path, how large it is where that is known, and what it
/// holds where that was read.
pub struct DumpRead {
    pub file_name: String,
    pub path: String,
    pub size_bytes: Option<u64>,
    pub content: Option<String>,
}

/// How the dumps that could be looked at are reported.
pub open spec fn dump_entries(dumps: Seq<DumpRead>, max_bytes: int) -> Seq<JsonView>
    decreases dumps.len(),
{
    if dumps.len() == 0 {
        Seq::empty()
    } else {
        let rest = dump_entries(dumps.drop_last(), max_bytes);
        let d = dumps.last();
        match d.size_bytes {
            Some(n) => rest.push(
                dump_entry(d.file_name@, d.path@, n as int, max_bytes, opt_string(d.content)),
            ),
            None => rest,
        }
    }
}

/// How the dumps are reported that were selected out of `total`, and how many are not. One that
/// cannot be looked at counts as left out.
pub fn collect_why3_dump_files(dumps: &Vec<DumpRead>, total: usize, max_bytes: u64) -> (r: (
    Vec<Json>,
    usize,
))
    requires
        dumps@.len() <= total,
    ensures
        models(r.0@) == dump_entries(dumps@, max_bytes as int),
        r.1 == total - dump_entries(dumps@, max_bytes as int).len(),
{
    let ghost all = dumps@;
    let mut out: Vec<Json> = Vec::new();
    let mut i: usize = 0;
    assert(models(out@) =~= Seq::empty());
    assert(all.subrange(0, 0) =~= Seq::empty());
    while i < dumps.len()
        invariant
            i <= dumps@.len(),
            all == dumps@,
            out@.len() <= i,
            models(out@) == dump_entries(all.subrange(0, i as int), max_bytes as int),
        decreases dumps@.len() - i,
    {
        proof {
            lemma_take_next(all, i as int);
        }
        let d = &dumps[i];
        match d.size_bytes {
            Some(n) => {
                let content = match &d.content {
                    Some(c) => Some(c.as_str()),
                    None => None,
                };
                let e = why3_dump_entry(
                    d.file_name.as_str(),
                    d.path.as_str(),
                    n,
                    max_bytes,
                    content,
                );
                proof {
                    lemma_models_push(out@, e);
                }
                out.push(e);
            },
            None => {},
        }
        i = i + 1;
    }
    assert(all.subrange(0, i as int) =~= all);
    assert(models(out@).len() == out@.len());
    let left: usize = total - out.len();
    (out, left)
}

/// The dumps that are shown are the first of all dumps in order, so that no dump left out comes
/// before one that is shown.
pub proof fn law_dumps_are_sorted_before_the_cap(names: Seq<Seq<char>>, max_files: int, i: int, j: int)
    requires
        0 <= i < first_texts(dump_names(names), max_files).len(),
        max_files <= j < dump_names(names).len(),
        0 <= max_files,
    ensures
        !text_lt(dump_names(names)[j], first_texts(dump_names(names), max_files)[i]),
{
    law_text_order();
    crate::order::law_sort_by(names.filter(|n: Seq<char>| dump_name(n)), text_order());
    let all = dump_names(names);
    let o = text_order();
    assert(!o(all[j], all[i]));
}

// ---------------------------------------------------------------------------
// Printed obligations
// ---------------------------------------------------------------------------

/// The kind of clause that the title of a printed obligation names.
pub open spec fn print_kind(title: Seq<char>) -> Seq<char> {
    let t = ascii_lower(title);
    if occurs(t, "pre-condition"@) {
        "requires"@
    } else if occurs(t, "post-condition"@) {
        "ensures"@
    } else if occurs(t, "assertion"@) {
        "assert"@
    } else if occurs(t, "loop assigns"@) {
        "loop_assigns"@
    } else if occurs(t, "assigns"@) {
        "assigns"@
    } else if occurs(t, "invariant"@) {
        "loop_invariant"@
    } else if occurs(t, "variant"@) {
        "loop_variant"@
    } else if occurs(t, "complete behaviors"@) || occurs(t, "disjoint behaviors"@) {
        "behavior"@
    } else if occurs(t, "termination-condition"@) {
        "termination"@
    } else if occurs(t, "exit-condition"@) {
        "exit"@
    } else {
        "unknown"@
    }
}

/// The kind of clause that the title of a printed obligation names.
pub fn wp_print_kind(title: &str) -> (r: &'static str)
    ensures
        r@ == print_kind(title@),
{
    let lower = to_ascii_lowercase(title);
    let t = lower.as_str();
    if contains(t, "pre-condition") {
        "requires"
    } else if contains(t, "post-condition") {
        "ensures"
    } else if contains(t, "assertion") {
        "assert"
    } else if contains(t, "loop assigns") {
        "loop_assigns"
    } else if contains(t, "assigns") {
        "assigns"
    } else if contains(t, "invariant") {
        "loop_invariant"
    } else if contains(t, "variant") {
        "loop_variant"
    } else if contains(t, "complete behaviors") || contains(t, "disjoint behaviors") {
        "behavior"
    } else if contains(t, "termination-condition") {
        "termination"
    } else if contains(t, "exit-condition") {
        "exit"
    } else {
        "unknown"
    }
}

/// The first position from `i` on that holds no digit.
pub open spec fn skip_digits(s: Seq<char>, i: int) -> int
    decreases s.len() - i,
{
    if i < 0 || i >= s.len() {
        s.len() as int
    } else if is_digit(s[i]) {
        skip_digits(s, i + 1)
    } else {
        i
    }
}

/// Skipping digits goes no further than the end.
pub proof fn lemma_skip_digits(s: Seq<char>, i: int)
    requires
        0 <= i <= s.len(),
    ensures
        i <= skip_digits(s, i) <= s.len(),
    decreases s.len() - i,
{
    if i < s.len() {
        lemma_skip_digits(s, i + 1);
    }
}

/// The number that a text begins with.
pub open spec fn leading_number(s: Seq<char>) -> Option<int> {
    read_number(s.subrange(0, skip_digits(s, 0)))
}

fn number_at_start(s: &str) -> (r: Option<u64>)
    ensures
        line_view(r) == leading_number(s@),
{
    let cs = chars_of(s);
    let mut i: usize = 0;
    proof {
        lemma_skip_digits(s@, 0);
    }
    while i < cs.len() && digit(cs[i])
        invariant
            cs@ == s@,
            i <= cs@.len(),
            skip_digits(s@, 0) == skip_digits(s@, i as int),
        decreases cs@.len() - i,
    {
        i = i + 1;
    }
    number_in(text_between(&cs, 0, i).as_str())
}

/// The numbers behind the occurrences of `needle`, and what follows the last of them.
pub open spec fn numbers_after(s: Seq<char>, needle: Seq<char>) -> (Seq<int>, Seq<char>)
    decreases s.len(),
    when needle.len() > 0
    via numbers_after_decreases
{
    match find_from_spec(s, needle, 0) {
        Some(i) => {
            let rest = s.subrange(i + needle.len(), s.len() as int);
            let more = numbers_after(rest, needle);
            match leading_number(rest) {
                Some(n) => (seq![n] + more.0, more.1),
                None => more,
            }
        },
        None => (Seq::empty(), s),
    }
}

#[via_fn]
proof fn numbers_after_decreases(s: Seq<char>, needle: Seq<char>) {
    if let Some(i) = find_from_spec(s, needle, 0) {
        assert(first_at(s, needle, 0, i));
    }
}

/// The line that the title of a printed obligation names last: behind `line ` or, past the last
/// of those, behind `lines `.
pub open spec fn title_line(title: Seq<char>) -> Option<int> {
    let first = numbers_after(title, "line "@);
    let all = first.0 + numbers_after(first.1, "lines "@).0;
    if all.len() > 0 {
        Some(all.last())
    } else {
        None
    }
}

/// The numbers behind the occurrences of `needle`, and what follows the last of them.
fn collect_after(s: &str, needle: &str) -> (r: (Vec<u64>, String))
    requires
        needle@.len() > 0,
    ensures
        r.0@.map_values(|n: u64| n as int) == numbers_after(s@, needle@).0,
        r.1@ == numbers_after(s@, needle@).1,
{
    let n = chars_of(needle);
    let mut found: Vec<u64> = Vec::new();
    let mut rest = owned(s);
    assert(found@.map_values(|n: u64| n as int) =~= Seq::empty());
    let ghost want = numbers_after(s@, needle@);
    loop
        invariant
            n@ == needle@,
            needle@.len() > 0,
            want == numbers_after(s@, needle@),
            want.0 =~= found@.map_values(|n: u64| n as int) + numbers_after(rest@, needle@).0,
            want.1 == numbers_after(rest@, needle@).1,
        decreases rest@.len(),
    {
        let cs = chars_of(rest.as_str());
        let total: usize = cs.len();
        match find_chars(&cs, &n, 0) {
            Some(i) => {
                let ghost before = rest@;
                rest = text_between(&cs, i + n.len(), total);
                assert(numbers_after(before, needle@) == ({
                    let more = numbers_after(rest@, needle@);
                    match leading_number(rest@) {
                        Some(n) => (seq![n] + more.0, more.1),
                        None => more,
                    }
                }));
                match number_at_start(rest.as_str()) {
                    Some(k) => {
                        found.push(k);
                    },
                    None => {},
                }
            },
            None => {
                return (found, rest);
            },
        }
    }
}

/// The line that the title of a printed obligation names last.
pub fn wp_print_match_line(title: &str) -> (r: Option<u64>)
    ensures
        line_view(r) == title_line(title@),
{
    proof {
        reveal_strlit("line ");
        reveal_strlit("lines ");
    }
    let (first, rest) = collect_after(title, "line ");
    let (second, _) = collect_after(rest.as_str(), "lines ");
    let ghost a = first@.map_values(|n: u64| n as int);
    let ghost b = second@.map_values(|n: u64| n as int);
    if second.len() > 0 {
        assert((a + b).last() == b.last());
        Some(second[second.len() - 1])
    } else if first.len() > 0 {
        assert((a + b) =~= a);
        Some(first[first.len() - 1])
    } else {
        assert((a + b).len() == 0);
        None
    }
}

/// A labelled line of the hypotheses of an obligation.
pub open spec fn section(label: Seq<char>, text: Seq<char>) -> JsonView {
    JsonView::object().with("label"@, JsonView::Str(label)).with("text"@, JsonView::Str(text))
}

/// A line of the hypotheses of an obligation, where it carries the label.
pub open spec fn labelled(t: Seq<char>, label: Seq<char>) -> Option<JsonView> {
    if t == "(* "@ + label + " *)"@ || t == label + " {"@ {
        Some(section(label, ""@))
    } else {
        match strip_prefix_spec(t, label + ":"@) {
            Some(text) => Some(section(label, trim_spec(text))),
            None => None,
        }
    }
}

/// The labels of the hypotheses of an obligation.
pub open spec fn section_labels() -> Seq<Seq<char>> {
    seq!["Heap"@, "Pre-condition"@, "Invariant"@, "Then"@, "Else"@, "Residual"@]
}

/// What a line is under the first of some labels that it carries.
pub open spec fn first_label(t: Seq<char>, labels: Seq<Seq<char>>) -> Option<JsonView>
    decreases labels.len(),
{
    if labels.len() == 0 {
        None
    } else {
        match first_label(t, labels.drop_last()) {
            Some(v) => Some(v),
            None => labelled(t, labels.last()),
        }
    }
}

/// The labelled lines of the hypotheses of an obligation.
pub open spec fn sections(hypotheses: Seq<Seq<char>>) -> Seq<JsonView>
    decreases hypotheses.len(),
{
    if hypotheses.len() == 0 {
        Seq::empty()
    } else {
        let rest = sections(hypotheses.drop_last());
        match first_label(trim_spec(hypotheses.last()), section_labels()) {
            Some(v) => rest.push(v),
            None => rest,
        }
    }
}

fn under_label(t: &str, label: &str) -> (r: Option<Json>)
    ensures
        crate::json::opt_value(r) == labelled(t@, label@),
{
    if same(t, cat3("(* ", label, " *)").as_str()) || same(t, cat2(label, " {").as_str()) {
        Some(Json::object().with("label", Json::str(label)).with("text", Json::str("")))
    } else {
        match strip_prefix(t, cat2(label, ":").as_str()) {
            Some(text) => Some(
                Json::object().with("label", Json::str(label)).with(
                    "text",
                    Json::Str(trim(text.as_str())),
                ),
            ),
            None => None,
        }
    }
}

fn label_list() -> (r: Vec<String>)
    ensures
        texts(r@) == section_labels(),
{
    let mut v: Vec<String> = Vec::new();
    v.push(owned("Heap"));
    v.push(owned("Pre-condition"));
    v.push(owned("Invariant"));
    v.push(owned("Then"));
    v.push(owned("Else"));
    v.push(owned("Residual"));
    assert(texts(v@) =~= section_labels());
    v
}

fn find_label(t: &str, labels: &Vec<String>) -> (r: Option<Json>)
    ensures
        crate::json::opt_value(r) == first_label(t@, texts(labels@)),
{
    let ghost all = texts(labels@);
    let mut i: usize = 0;
    while i < labels.len()
        invariant
            i <= labels@.len(),
            all == texts(labels@),
            first_label(t@, all.subrange(0, i as int)) is None,
        decreases labels@.len() - i,
    {
        proof {
            lemma_take_next(all, i as int);
        }
        match under_label(t, labels[i].as_str()) {
            Some(v) => {
                proof {
                    lemma_first_label_stays(t@, all, i + 1);
                }
                return Some(v);
            },
            None => {},
        }
        i = i + 1;
    }
    assert(all.subrange(0, i as int) =~= all);
    None
}

/// A label found among the first labels is found among all.
proof fn lemma_first_label_stays(t: Seq<char>, labels: Seq<Seq<char>>, n: int)
    requires
        0 <= n <= labels.len(),
        first_label(t, labels.subrange(0, n)) is Some,
    ensures
        first_label(t, labels) == first_label(t, labels.subrange(0, n)),
    decreases labels.len() - n,
{
    if n == labels.len() {
        assert(labels.subrange(0, n) =~= labels);
    } else {
        assert(labels.subrange(0, n + 1).drop_last() =~= labels.subrange(0, n));
        lemma_first_label_stays(t, labels, n + 1);
    }
}

/// The labelled lines of the hypotheses of an obligation.
pub fn wp_print_sections(hypotheses: &Vec<String>) -> (r: Vec<Json>)
    ensures
        models(r@) == sections(texts(hypotheses@)),
{
    let labels = label_list();
    let ghost all = texts(hypotheses@);
    let mut out: Vec<Json> = Vec::new();
    let mut i: usize = 0;
    assert(models(out@) =~= sections(all.subrange(0, 0)));
    while i < hypotheses.len()
        invariant
            i <= hypotheses@.len(),
            all == texts(hypotheses@),
            texts(labels@) == section_labels(),
            models(out@) == sections(all.subrange(0, i as int)),
        decreases hypotheses@.len() - i,
    {
        proof {
            lemma_take_next(all, i as int);
        }
        let trimmed = trim(hypotheses[i].as_str());
        match find_label(trimmed.as_str(), &labels) {
            Some(v) => {
                proof {
                    lemma_models_push(out@, v);
                }
                out.push(v);
            },
            None => {},
        }
        i = i + 1;
    }
    assert(all.subrange(0, i as int) =~= all);
    out
}

/// A printed obligation: the function, the title and the lines under it.
pub struct PrintBlock {
    pub function: String,
    pub title: String,
    pub body: Vec<String>,
}

/// A printed obligation, as a mathematical object.
pub struct BlockView {
    pub function: Seq<char>,
    pub title: Seq<char>,
    pub body: Seq<Seq<char>>,
}

impl View for PrintBlock {
    type V = BlockView;

    open spec fn view(&self) -> BlockView {
        BlockView { function: self.function@, title: self.title@, body: texts(self.body@) }
    }
}

/// What has been read of the body of an obligation: its hypotheses, its conclusion, whether the
/// conclusion has begun, and whether the body has ended.
pub struct BodyView {
    pub hypotheses: Seq<Seq<char>>,
    pub conclusion: Seq<Seq<char>>,
    pub concluding: bool,
    pub ended: bool,
}

/// What one more line adds to the body of an obligation.
pub open spec fn body_step(s: BodyView, line: Seq<char>) -> BodyView {
    let t = trim_spec(line);
    if s.ended {
        s
    } else if begins(t, "Prover "@) || begins(t, "[wp"@) {
        BodyView { ended: true, ..s }
    } else {
        match strip_prefix_spec(t, "Prove:"@) {
            Some(rest) => BodyView {
                concluding: true,
                conclusion: s.conclusion.push(trim_spec(rest)),
                ..s
            },
            None => if t.len() == 0 {
                s
            } else if s.concluding {
                BodyView { conclusion: s.conclusion.push(t), ..s }
            } else {
                BodyView { hypotheses: s.hypotheses.push(line), ..s }
            },
        }
    }
}

/// What the lines of the body of an obligation say.
pub open spec fn body_of(ls: Seq<Seq<char>>) -> BodyView
    decreases ls.len(),
{
    if ls.len() == 0 {
        BodyView {
            hypotheses: Seq::empty(),
            conclusion: Seq::empty(),
            concluding: false,
            ended: false,
        }
    } else {
        body_step(body_of(ls.drop_last()), ls.last())
    }
}

/// How a printed obligation is reported.
pub open spec fn block_json(b: BlockView) -> JsonView {
    let body = body_of(b.body);
    JsonView::object().with("function"@, JsonView::Str(b.function)).with(
        "title"@,
        JsonView::Str(b.title),
    ).with("kind"@, JsonView::Str(print_kind(b.title))).with(
        "source_line"@,
        JsonView::opt_int(title_line(b.title)),
    ).with("hypotheses"@, JsonView::strings(body.hypotheses)).with(
        "sections"@,
        JsonView::Array(sections(body.hypotheses)),
    ).with("conclusion"@, JsonView::Str(trim_spec(join_spec(body.conclusion, "\n"@))))
}

/// How a printed obligation is reported: its hypotheses, its labelled lines, and what is to be
/// proved.
pub fn wp_print_block_json(block: &PrintBlock) -> (r: Json)
    ensures
        r@ == block_json(block@),
{
    let ghost all = texts(block.body@);
    let mut hypotheses: Vec<String> = Vec::new();
    let mut conclusion: Vec<String> = Vec::new();
    let mut concluding: bool = false;
    let mut ended: bool = false;
    let mut i: usize = 0;
    assert(texts(hypotheses@) =~= Seq::empty());
    assert(texts(conclusion@) =~= Seq::empty());
    assert(all.subrange(0, 0) =~= Seq::empty());
    while i < block.body.len()
        invariant
            i <= block.body@.len(),
            all == texts(block.body@),
            body_of(all.subrange(0, i as int)) == (BodyView {
                hypotheses: texts(hypotheses@),
                conclusion: texts(conclusion@),
                concluding,
                ended,
            }),
        decreases block.body@.len() - i,
    {
        proof {
            lemma_take_next(all, i as int);
        }
        let ghost h = texts(hypotheses@);
        let ghost c = texts(conclusion@);
        let line = block.body[i].as_str();
        let trimmed = trim(line);
        let t = trimmed.as_str();
        if ended {
        } else if starts_with(t, "Prover ") || starts_with(t, "[wp") {
            ended = true;
        } else {
            match strip_prefix(t, "Prove:") {
                Some(rest) => {
                    concluding = true;
                    let part = trim(rest.as_str());
                    conclusion.push(part);
                    assert(texts(conclusion@) =~= c.push(part@));
                },
                None => if t.is_empty() {
                } else if concluding {
                    let part = owned(t);
                    conclusion.push(part);
                    assert(texts(conclusion@) =~= c.push(part@));
                } else {
                    let part = owned(line);
                    hypotheses.push(part);
                    assert(texts(hypotheses@) =~= h.push(part@));
                },
            }
        }
        i = i + 1;
    }
    assert(all.subrange(0, i as int) =~= all);
    let shown = trim(join(&conclusion, "\n").as_str());
    Json::object().with("function", Json::str(block.function.as_str())).with(
        "title",
        Json::str(block.title.as_str()),
    ).with("kind", Json::str(wp_print_kind(block.title.as_str()))).with(
        "source_line",
        Json::opt_num(wp_print_match_line(block.title.as_str())),
    ).with("hypotheses", Json::strings(&hypotheses)).with(
        "sections",
        Json::array(wp_print_sections(&hypotheses)),
    ).with("conclusion", Json::Str(shown))
}

/// What has been read of printed obligations: the reported ones, the function they belong to, the
/// one that is being read, and a title that has not ended yet.
pub struct PrintState {
    pub blocks: Vec<Json>,
    pub function: String,
    pub current: Option<PrintBlock>,
    pub pending: Option<(String, String)>,
}

/// What has been read of printed obligations, as a mathematical object.
pub struct PrintView {
    pub blocks: Seq<JsonView>,
    pub function: Seq<char>,
    pub current: Option<BlockView>,
    pub pending: Option<(Seq<char>, Seq<char>)>,
}

/// The obligation behind an optional one.
pub open spec fn opt_block(o: Option<PrintBlock>) -> Option<BlockView> {
    match o {
        Some(b) => Some(b@),
        None => None,
    }
}

impl View for PrintState {
    type V = PrintView;

    open spec fn view(&self) -> PrintView {
        PrintView {
            blocks: models(self.blocks@),
            function: self.function@,
            current: opt_block(self.current),
            pending: crate::text::opt_pair(self.pending),
        }
    }
}

/// An obligation with nothing under its title.
pub open spec fn empty_block(title: (Seq<char>, Seq<char>)) -> BlockView {
    BlockView { function: title.0, title: title.1, body: Seq::empty() }
}

/// What has been read, with the obligation that was being read reported.
pub open spec fn flushed(s: PrintView) -> PrintView {
    let current = match s.pending {
        Some(p) => Some(empty_block(p)),
        None => s.current,
    };
    PrintView {
        blocks: match current {
            Some(b) => s.blocks.push(block_json(b)),
            None => s.blocks,
        },
        current: None,
        pending: None,
        ..s
    }
}

/// What one more line of a title does.
pub open spec fn title_step(s: PrintView, p: (Seq<char>, Seq<char>), t: Seq<char>) -> PrintView {
    if t == ":"@ {
        PrintView { current: Some(empty_block(p)), pending: None, ..s }
    } else if t.len() == 0 {
        s
    } else {
        let title = p.1 + " "@ + trim_spec(trim_end_char_spec(t, ':'));
        if ends(t, ":"@) {
            PrintView { current: Some(empty_block((p.0, title))), pending: None, ..s }
        } else {
            PrintView { pending: Some((p.0, title)), ..s }
        }
    }
}

/// What one more line of output does.
pub open spec fn print_step(s: PrintView, line: Seq<char>) -> PrintView {
    let t = trim_spec(line);
    match strip_prefix_spec(t, "Function "@) {
        Some(rest) => PrintView {
            function: trim_spec(before_spec(rest, " with behavior "@)),
            ..flushed(s)
        },
        None => match strip_prefix_spec(t, "Goal "@) {
            Some(rest) => {
                let title = (s.function, trim_spec(trim_end_char_spec(rest, ':')));
                if ends(t, ":"@) {
                    PrintView { current: Some(empty_block(title)), ..flushed(s) }
                } else {
                    PrintView { pending: Some(title), ..flushed(s) }
                }
            },
            None => match s.pending {
                Some(p) => title_step(s, p, t),
                None => match s.current {
                    Some(b) => if t == ":"@ || all_char(t, '-') {
                        s
                    } else {
                        PrintView {
                            current: Some(BlockView { body: b.body.push(line), ..b }),
                            ..s
                        }
                    },
                    None => s,
                },
            },
        },
    }
}

/// What some lines of output say.
pub open spec fn print_state(ls: Seq<Seq<char>>) -> PrintView
    decreases ls.len(),
{
    if ls.len() == 0 {
        PrintView { blocks: Seq::empty(), function: ""@, current: None, pending: None }
    } else {
        print_step(print_state(ls.drop_last()), ls.last())
    }
}

/// The obligations that an output prints: a title that was never ended keeps what was read under
/// the obligation before it.
pub open spec fn print_blocks(output: Seq<char>) -> Seq<JsonView> {
    let s = print_state(lines_spec(output));
    match s.pending {
        Some(p) => s.blocks.push(
            block_json(
                BlockView {
                    function: p.0,
                    title: p.1,
                    body: match s.current {
                        Some(b) => b.body,
                        None => Seq::empty(),
                    },
                },
            ),
        ),
        None => match s.current {
            Some(b) => s.blocks.push(block_json(b)),
            None => s.blocks,
        },
    }
}

fn new_block(function: String, title: String) -> (r: PrintBlock)
    ensures
        r@ == empty_block((function@, title@)),
{
    let body: Vec<String> = Vec::new();
    assert(texts(body@) =~= Seq::empty());
    PrintBlock { function, title, body }
}

fn flush(state: PrintState) -> (r: PrintState)
    ensures
        r@ == flushed(state@),
{
    let mut blocks = state.blocks;
    let current = match state.pending {
        Some((f, t)) => Some(new_block(f, t)),
        None => state.current,
    };
    match &current {
        Some(b) => {
            let j = wp_print_block_json(b);
            proof {
                lemma_models_push(blocks@, j);
            }
            blocks.push(j);
        },
        None => {},
    }
    PrintState { blocks, function: state.function, current: None, pending: None }
}

fn step_title(state: PrintState, function: String, title: String, t: &str) -> (r: PrintState)
    requires
        state@.pending == Some((function@, title@)),
    ensures
        r@ == title_step(state@, (function@, title@), t@),
{
    if same(t, ":") {
        PrintState {
            blocks: state.blocks,
            function: state.function,
            current: Some(new_block(function, title)),
            pending: None,
        }
    } else if t.is_empty() {
        PrintState {
            blocks: state.blocks,
            function: state.function,
            current: state.current,
            pending: Some((function, title)),
        }
    } else {
        let tail = trim(trim_end_char(t, ':').as_str());
        let longer = cat3(title.as_str(), " ", tail.as_str());
        if ends_with(t, ":") {
            PrintState {
                blocks: state.blocks,
                function: state.function,
                current: Some(new_block(function, longer)),
                pending: None,
            }
        } else {
            PrintState {
                blocks: state.blocks,
                function: state.function,
                current: state.current,
                pending: Some((function, longer)),
            }
        }
    }
}

fn step_print(state: PrintState, line: &str) -> (r: PrintState)
    ensures
        r@ == print_step(state@, line@),
{
    let trimmed = trim(line);
    let t = trimmed.as_str();
    match strip_prefix(t, "Function ") {
        Some(rest) => {
            let mut s = flush(state);
            s.function = trim(before(rest.as_str(), " with behavior ").as_str());
            return s;
        },
        None => {},
    }
    match strip_prefix(t, "Goal ") {
        Some(rest) => {
            let function = owned(state.function.as_str());
            let title = trim(trim_end_char(rest.as_str(), ':').as_str());
            let mut s = flush(state);
            if ends_with(t, ":") {
                s.current = Some(new_block(function, title));
            } else {
                s.pending = Some((function, title));
            }
            return s;
        },
        None => {},
    }
    match state.pending {
        Some((function, title)) => {
            let s = PrintState {
                blocks: state.blocks,
                function: state.function,
                current: state.current,
                pending: Some((owned(function.as_str()), owned(title.as_str()))),
            };
            step_title(s, function, title, t)
        },
        None => match state.current {
            Some(b) => if same(t, ":") || only_char(t, '-') {
                PrintState {
                    blocks: state.blocks,
                    function: state.function,
                    current: Some(b),
                    pending: None,
                }
            } else {
                let ghost before = b.body@;
                let mut body = b.body;
                body.push(owned(line));
                assert(texts(body@) =~= texts(before).push(line@));
                PrintState {
                    blocks: state.blocks,
                    function: state.function,
                    current: Some(PrintBlock { function: b.function, title: b.title, body }),
                    pending: None,
                }
            },
            None => PrintState {
                blocks: state.blocks,
                function: state.function,
                current: None,
                pending: None,
            },
        },
    }
}

/// The obligations that WP printed. A title that WP folded across lines ends at the first line
/// that ends in a colon.
pub fn parse_wp_print_blocks(output: &str) -> (r: Vec<Json>)
    ensures
        models(r@) == print_blocks(output@),
{
    let ls = lines(output);
    let ghost all = texts(ls@);
    let mut state = PrintState {
        blocks: Vec::new(),
        function: owned(""),
        current: None,
        pending: None,
    };
    assert(models(state.blocks@) =~= Seq::empty());
    assert(all.subrange(0, 0) =~= Seq::empty());
    let mut i: usize = 0;
    while i < ls.len()
        invariant
            i <= ls@.len(),
            all == texts(ls@),
            state@ == print_state(all.subrange(0, i as int)),
        decreases ls@.len() - i,
    {
        proof {
            lemma_take_next(all, i as int);
        }
        state = step_print(state, ls[i].as_str());
        i = i + 1;
    }
    assert(all.subrange(0, i as int) =~= all);
    let mut blocks = state.blocks;
    let last = match state.pending {
        Some((function, title)) => {
            let body = match state.current {
                Some(b) => b.body,
                None => {
                    let none: Vec<String> = Vec::new();
                    assert(texts(none@) =~= Seq::empty());
                    none
                },
            };
            Some(PrintBlock { function, title, body })
        },
        None => state.current,
    };
    match &last {
        Some(b) => {
            let j = wp_print_block_json(b);
            proof {
                lemma_models_push(blocks@, j);
            }
            blocks.push(j);
        },
        None => {},
    }
    blocks
}

/// Whether a line of output is a warning to show.
pub open spec fn warning_line(line: Seq<char>) -> bool {
    (occurs(line, "Warning:"@) || occurs(
        line,
        "Allocation, initialization and danglingness not yet implemented"@,
    )) && trim_spec(line).len() > 0 && !occurs(trim_spec(line), "Missing RTE guards"@)
}

/// The warnings among some lines of output, trimmed.
pub open spec fn warning_lines(ls: Seq<Seq<char>>) -> Seq<Seq<char>>
    decreases ls.len(),
{
    if ls.len() == 0 {
        Seq::empty()
    } else if warning_line(ls.last()) {
        warning_lines(ls.drop_last()).push(trim_spec(ls.last()))
    } else {
        warning_lines(ls.drop_last())
    }
}

fn push_warnings(out: &mut Vec<String>, text: &str)
    ensures
        texts(final(out)@) == texts(old(out)@) + warning_lines(lines_spec(text@)),
{
    let ls = lines(text);
    let ghost all = texts(ls@);
    let ghost start = texts(out@);
    let mut i: usize = 0;
    assert(start =~= start + warning_lines(all.subrange(0, 0)));
    while i < ls.len()
        invariant
            i <= ls@.len(),
            all == texts(ls@),
            texts(out@) =~= start + warning_lines(all.subrange(0, i as int)),
        decreases ls@.len() - i,
    {
        proof {
            lemma_take_next(all, i as int);
        }
        let line = ls[i].as_str();
        if contains(line, "Warning:") || contains(
            line,
            "Allocation, initialization and danglingness not yet implemented",
        ) {
            let t = trim(line);
            if !t.as_str().is_empty() && !contains(t.as_str(), "Missing RTE guards") {
                let ghost before = out@;
                out.push(t);
                assert(texts(out@) =~= texts(before).push(t@));
            }
        }
        i = i + 1;
    }
    assert(all.subrange(0, i as int) =~= all);
}

/// The warnings of a run: those on its output, then those on its error output.
pub fn wp_output_warnings(stdout: &str, stderr: &str) -> (r: Vec<String>)
    ensures
        texts(r@) == warning_lines(lines_spec(stdout@)) + warning_lines(lines_spec(stderr@)),
{
    let mut out: Vec<String> = Vec::new();
    assert(texts(out@) =~= Seq::empty());
    push_warnings(&mut out, stdout);
    push_warnings(&mut out, stderr);
    assert(texts(out@) =~= warning_lines(lines_spec(stdout@)) + warning_lines(lines_spec(stderr@)));
    out
}

// ---------------------------------------------------------------------------
// Matching obligations with goals
// ---------------------------------------------------------------------------

/// The clause that an obligation is related to.
pub open spec fn related_clause(vc: JsonView) -> Option<JsonView> {
    vc.or_get(vc.get("related_acsl_clause"@), "clause"@)
}

/// The kind of printed obligation that a kind of clause is.
pub open spec fn clause_print_kind(kind: Seq<char>) -> Seq<char> {
    if kind == "requires"@ || kind == "ensures"@ || kind == "assigns"@ || kind == "loop_invariant"@
        || kind == "loop_assigns"@ || kind == "loop_variant"@ {
        kind
    } else if kind == "complete"@ || kind == "disjoint"@ || kind == "behavior"@ {
        "behavior"@
    } else if kind == "assert"@ || kind == "assertion"@ {
        "assert"@
    } else {
        "unknown"@
    }
}

/// The kind of printed obligation that a goal is.
pub open spec fn vc_print_kind(vc: JsonView) -> Seq<char> {
    let kind = vc.text("goal_kind"@);
    if kind is Some && (kind->0 == "user_assert"@ || begins(kind->0, "rte_"@)) {
        "assert"@
    } else {
        match related_clause(vc) {
            Some(clause) => match clause.text("kind"@) {
                Some(k) => clause_print_kind(k),
                None => "unknown"@,
            },
            None => "unknown"@,
        }
    }
}

/// The kind of printed obligation that a goal is.
pub fn vc_wp_print_kind(vc: &Json) -> (r: &str)
    ensures
        r@ == vc_print_kind(vc@),
{
    match vc.text("goal_kind") {
        Some(k) => if same(k, "user_assert") || starts_with(k, "rte_") {
            return "assert";
        },
        None => {},
    }
    match vc.or_get(vc.get("related_acsl_clause"), "clause") {
        Some(clause) => match clause.text("kind") {
            Some(k) => if same(k, "requires") || same(k, "ensures") || same(k, "assigns") || same(
                k,
                "loop_invariant",
            ) || same(k, "loop_assigns") || same(k, "loop_variant") {
                k
            } else if same(k, "complete") || same(k, "disjoint") || same(k, "behavior") {
                "behavior"
            } else if same(k, "assert") || same(k, "assertion") {
                "assert"
            } else {
                "unknown"
            },
            None => "unknown",
        },
        None => "unknown",
    }
}

/// The number under `key`, and under `inner` in that.
pub open spec fn nat_under(v: JsonView, key: Seq<char>, inner: Seq<char>) -> Option<int> {
    match v.at(key, inner) {
        Some(n) => n.as_nat(),
        None => None,
    }
}

/// The line at which a goal stands: its own or, without one, that of the clause it is related to.
pub open spec fn vc_line(vc: JsonView) -> Option<int> {
    match nat_under(vc, "source_location"@, "line"@) {
        Some(n) => Some(n),
        None => match related_clause(vc) {
            Some(clause) => nat_under(clause, "loc"@, "line"@),
            None => None,
        },
    }
}

fn number_under(v: &Json, key: &str, inner: &str) -> (r: Option<u64>)
    ensures
        line_view(r) == nat_under(v@, key@, inner@),
{
    match v.at(key, inner) {
        Some(n) => n.as_nat(),
        None => None,
    }
}

/// The line at which a goal stands.
pub fn vc_source_line(vc: &Json) -> (r: Option<u64>)
    ensures
        line_view(r) == vc_line(vc@),
{
    match number_under(vc, "source_location", "line") {
        Some(n) => Some(n),
        None => match vc.or_get(vc.get("related_acsl_clause"), "clause") {
            Some(clause) => number_under(clause, "loc", "line"),
            None => None,
        },
    }
}

/// Whether a printed obligation could be that of a goal: of the same function and kind and, where
/// the goal has a line, on it.
pub open spec fn block_fits(block: JsonView, vc: JsonView) -> bool {
    &&& block.text("function"@) == vc.text("function"@)
    &&& block.text("kind"@) == Some(vc_print_kind(vc))
    &&& match vc_line(vc) {
        Some(line) => block.nat_at("source_line"@) == Some(line),
        None => true,
    }
}

/// Whether exactly one printed obligation fits, and it is the one at `i`.
pub open spec fn only_fit(blocks: Seq<JsonView>, vc: JsonView, i: int) -> bool {
    &&& 0 <= i < blocks.len()
    &&& block_fits(blocks[i], vc)
    &&& forall|j: int|
        0 <= j < blocks.len() && block_fits(#[trigger] blocks[j], vc) ==> j == i
}

/// A goal with its printed obligation, where exactly one could be it.
pub open spec fn with_print_block(vc: JsonView, blocks: Seq<JsonView>) -> JsonView {
    if vc.text("function"@) is Some && exists|i: int| only_fit(blocks, vc, i) {
        vc.with("wp_print"@, blocks[choose|i: int| only_fit(blocks, vc, i)])
    } else {
        vc
    }
}

fn fits(block: &Json, vc: &Json) -> (r: bool)
    requires
        vc@.text("function"@) is Some,
    ensures
        r == block_fits(block@, vc@),
{
    let same_function: bool = match vc.text("function") {
        Some(f) => is_text(block.text("function"), f),
        None => false,
    };
    let same_line: bool = match vc_source_line(vc) {
        Some(n) => match block.nat_at("source_line") {
            Some(m) => m == n,
            None => false,
        },
        None => true,
    };
    same_function && is_text(block.text("kind"), vc_wp_print_kind(vc)) && same_line
}

fn attach_block(vc: Json, blocks: &Vec<Json>) -> (r: Json)
    ensures
        r@ == with_print_block(vc@, models(blocks@)),
{
    if vc.text("function").is_none() {
        return vc;
    }
    let ghost all = models(blocks@);
    let mut found: Option<usize> = None;
    let mut several: bool = false;
    let mut i: usize = 0;
    while i < blocks.len()
        invariant
            vc@.text("function"@) is Some,
            i <= blocks@.len(),
            all == models(blocks@),
            match found {
                Some(f) => {
                    &&& f < i
                    &&& block_fits(all[f as int], vc@)
                    &&& !several ==> forall|j: int|
                        0 <= j < i && block_fits(#[trigger] all[j], vc@) ==> j == f
                    &&& several ==> exists|j: int|
                        0 <= j < i && j != f && block_fits(#[trigger] all[j], vc@)
                },
                None => !several && forall|j: int|
                    0 <= j < i ==> !block_fits(#[trigger] all[j], vc@),
            },
        decreases blocks@.len() - i,
    {
        assert(all[i as int] == blocks@[i as int]@);
        if fits(&blocks[i], &vc) {
            if found.is_some() {
                several = true;
            } else {
                found = Some(i);
            }
        }
        i = i + 1;
    }
    match found {
        Some(f) => if !several {
            proof {
                assert(only_fit(all, vc@, f as int));
                let w = choose|w: int| only_fit(all, vc@, w);
                assert(only_fit(all, vc@, w));
                assert(block_fits(all[w], vc@));
            }
            let c = blocks[f].copy();
            vc.with("wp_print", c)
        } else {
            proof {
                let k = choose|k: int|
                    0 <= k < all.len() && k != f && block_fits(#[trigger] all[k], vc@);
                assert forall|w: int| !only_fit(all, vc@, w) by {
                    if only_fit(all, vc@, w) {
                        assert(block_fits(all[f as int], vc@));
                        assert(block_fits(all[k], vc@));
                    }
                }
            }
            vc
        },
        None => {
            proof {
                assert forall|w: int| !only_fit(all, vc@, w) by {
                    if only_fit(all, vc@, w) {
                        assert(block_fits(all[w], vc@));
                    }
                }
            }
            vc
        },
    }
}

/// Attaches to each goal its printed obligation, where exactly one could be it.
pub fn attach_wp_print_blocks(vcs: &mut Vec<Json>, blocks: &Vec<Json>)
    ensures
        models(final(vcs)@) == models(old(vcs)@).map_values(
            |vc: JsonView| with_print_block(vc, models(blocks@)),
        ),
{
    let ghost before = vcs@;
    let mut out: Vec<Json> = Vec::new();
    let mut i: usize = 0;
    while i < vcs.len()
        invariant
            vcs@ == before,
            i <= vcs@.len(),
            out@.len() == i,
            forall|k: int|
                0 <= k < i ==> (#[trigger] out@[k])@ == with_print_block(
                    before[k]@,
                    models(blocks@),
                ),
        decreases vcs@.len() - i,
    {
        let c = vcs[i].copy();
        out.push(attach_block(c, blocks));
        i = i + 1;
    }
    *vcs = out;
    assert(models(vcs@) =~= models(before).map_values(
        |vc: JsonView| with_print_block(vc, models(blocks@)),
    ));
}

/// Whether two names of goals are the same, a leading `typed_` aside.
pub open spec fn same_goal(id: Seq<char>, goal_id: Seq<char>) -> bool {
    let bare = trim_prefix_spec(id, "typed_"@);
    let goal_bare = trim_prefix_spec(goal_id, "typed_"@);
    id == goal_id || id == goal_bare || bare == goal_id || bare == goal_bare
}

/// Whether a field of a goal names the goal that a dump is of.
pub open spec fn field_names(vc: JsonView, field: Seq<char>, goal_id: Seq<char>) -> bool {
    match vc.text(field) {
        Some(id) => same_goal(id, goal_id),
        None => false,
    }
}

/// Whether a dump is one of a goal.
pub open spec fn dump_fits(dump: JsonView, vc: JsonView) -> bool {
    match dump.text("goal_id"@) {
        Some(g) => field_names(vc, "wpo_id"@, g) || field_names(vc, "wpo"@, g) || field_names(
            vc,
            "stable_goal_id"@,
            g,
        ),
        None => false,
    }
}

/// A goal with its dumps, where there are any.
pub open spec fn with_dumps(vc: JsonView, dumps: Seq<JsonView>) -> JsonView {
    let found = dumps.filter(|d: JsonView| dump_fits(d, vc));
    if found.len() == 0 {
        vc
    } else {
        vc.with("why3_dumps"@, JsonView::Array(found))
    }
}

fn names_goal(vc: &Json, field: &str, goal_id: &str) -> (r: bool)
    ensures
        r == field_names(vc@, field@, goal_id@),
{
    match vc.text(field) {
        Some(id) => {
            let bare = trim_prefix(id, "typed_");
            let goal_bare = trim_prefix(goal_id, "typed_");
            same(id, goal_id) || same(id, goal_bare.as_str()) || same(bare.as_str(), goal_id)
                || same(bare.as_str(), goal_bare.as_str())
        },
        None => false,
    }
}

fn dumps_of(vc: &Json, dumps: &Vec<Json>) -> (r: Vec<Json>)
    ensures
        models(r@) == models(dumps@).filter(|d: JsonView| dump_fits(d, vc@)),
{
    let ghost all = models(dumps@);
    let ghost wanted = |d: JsonView| dump_fits(d, vc@);
    let mut out: Vec<Json> = Vec::new();
    let mut i: usize = 0;
    proof {
        reveal(Seq::filter);
        assert(models(out@) =~= all.subrange(0, 0).filter(wanted));
    }
    while i < dumps.len()
        invariant
            i <= dumps@.len(),
            all == models(dumps@),
            wanted == (|d: JsonView| dump_fits(d, vc@)),
            models(out@) == all.subrange(0, i as int).filter(wanted),
        decreases dumps@.len() - i,
    {
        proof {
            reveal(Seq::filter);
            lemma_take_next(all, i as int);
        }
        let d = &dumps[i];
        let fit: bool = match d.text("goal_id") {
            Some(g) => names_goal(vc, "wpo_id", g) || names_goal(vc, "wpo", g) || names_goal(
                vc,
                "stable_goal_id",
                g,
            ),
            None => false,
        };
        if fit {
            let c = d.copy();
            proof {
                lemma_models_push(out@, c);
            }
            out.push(c);
        }
        i = i + 1;
    }
    assert(all.subrange(0, i as int) =~= all);
    out
}

/// Attaches to each goal its Why3 dumps.
pub fn attach_why3_dumps(vcs: &mut Vec<Json>, dumps: &Vec<Json>)
    ensures
        models(final(vcs)@) == models(old(vcs)@).map_values(
            |vc: JsonView| with_dumps(vc, models(dumps@)),
        ),
{
    let ghost before = vcs@;
    let mut out: Vec<Json> = Vec::new();
    let mut i: usize = 0;
    while i < vcs.len()
        invariant
            vcs@ == before,
            i <= vcs@.len(),
            out@.len() == i,
            forall|k: int|
                0 <= k < i ==> (#[trigger] out@[k])@ == with_dumps(before[k]@, models(dumps@)),
        decreases vcs@.len() - i,
    {
        let c = vcs[i].copy();
        let found = dumps_of(&c, dumps);
        assert(models(found@).len() == found@.len());
        if found.len() == 0 {
            out.push(c);
        } else {
            out.push(c.with("why3_dumps", Json::array(found)));
        }
        i = i + 1;
    }
    *vcs = out;
    assert(models(vcs@) =~= models(before).map_values(
        |vc: JsonView| with_dumps(vc, models(dumps@)),
    ));
}

// ---------------------------------------------------------------------------
// What is read off a printed obligation
// ---------------------------------------------------------------------------

/// Whether a line is neither blank, nor the start of a conclusion, nor the answer of a prover.
pub open spec fn plain_line(line: Seq<char>) -> bool {
    let t = trim_spec(line);
    t.len() > 0 && !begins(t, "Prove:"@) && !begins(t, "Prover "@) && !begins(t, "[wp"@)
}

/// Whether some lines are all plain.
pub open spec fn plain_lines(ls: Seq<Seq<char>>) -> bool {
    forall|i: int| 0 <= i < ls.len() ==> plain_line(#[trigger] ls[i])
}

proof fn lemma_hypotheses_are_kept(hyps: Seq<Seq<char>>)
    requires
        plain_lines(hyps),
    ensures
        body_of(hyps) == (BodyView {
            hypotheses: hyps,
            conclusion: Seq::empty(),
            concluding: false,
            ended: false,
        }),
    decreases hyps.len(),
{
    if hyps.len() == 0 {
        assert(hyps =~= Seq::empty());
    } else {
        let before = hyps.drop_last();
        assert forall|i: int| 0 <= i < before.len() implies plain_line(#[trigger] before[i]) by {
            assert(plain_line(hyps[i]));
        }
        lemma_hypotheses_are_kept(before);
        assert(plain_line(hyps[hyps.len() - 1]));
        assert(before.push(hyps.last()) =~= hyps);
    }
}

proof fn lemma_conclusion_goes_on(start: Seq<Seq<char>>, ls: Seq<Seq<char>>)
    requires
        body_of(start).concluding,
        !body_of(start).ended,
        plain_lines(ls),
    ensures
        body_of(start + ls) == (BodyView {
            conclusion: body_of(start).conclusion + ls.map_values(|l: Seq<char>| trim_spec(l)),
            ..body_of(start)
        }),
    decreases ls.len(),
{
    let f = |l: Seq<char>| trim_spec(l);
    if ls.len() == 0 {
        assert(start + ls =~= start);
        assert(body_of(start).conclusion + ls.map_values(f) =~= body_of(start).conclusion);
    } else {
        let before = ls.drop_last();
        assert forall|i: int| 0 <= i < before.len() implies plain_line(#[trigger] before[i]) by {
            assert(plain_line(ls[i]));
        }
        lemma_conclusion_goes_on(start, before);
        assert((start + ls).drop_last() =~= start + before);
        assert((start + ls).last() == ls.last());
        assert(plain_line(ls[ls.len() - 1]));
        assert(body_of(start).conclusion + ls.map_values(f) =~= (body_of(start).conclusion
            + before.map_values(f)).push(trim_spec(ls.last())));
    }
}

proof fn lemma_what_follows_the_end(start: Seq<Seq<char>>, rest: Seq<Seq<char>>)
    requires
        body_of(start).ended,
    ensures
        body_of(start + rest) == body_of(start),
    decreases rest.len(),
{
    if rest.len() == 0 {
        assert(start + rest =~= start);
    } else {
        lemma_what_follows_the_end(start, rest.drop_last());
        assert((start + rest).drop_last() =~= start + rest.drop_last());
    }
}

/// The conclusion of an obligation is all that stands behind `Prove:` up to the answer of the
/// prover, every line of it; the lines before are its hypotheses, as they were printed; and what
/// stands behind the answer is no part of it.
pub proof fn law_the_whole_conclusion_is_kept(
    function: Seq<char>,
    title: Seq<char>,
    hyps: Seq<Seq<char>>,
    prove: Seq<char>,
    claim: Seq<char>,
    more: Seq<Seq<char>>,
    answer: Seq<char>,
    rest: Seq<Seq<char>>,
)
    requires
        plain_lines(hyps),
        trim_spec(prove) == "Prove:"@ + claim,
        plain_lines(more),
        begins(trim_spec(answer), "Prover "@) || begins(trim_spec(answer), "[wp"@),
    ensures
        ({
            let said = seq![trim_spec(claim)] + more.map_values(|l: Seq<char>| trim_spec(l));
            let open = block_json(
                BlockView { function, title, body: hyps + seq![prove] + more },
            );
            let answered = block_json(
                BlockView { function, title, body: hyps + seq![prove] + more + seq![answer] + rest },
            );
            &&& open.text("conclusion"@) == Some(trim_spec(join_spec(said, "\n"@)))
            &&& answered.text("conclusion"@) == Some(trim_spec(join_spec(said, "\n"@)))
            &&& open.get("hypotheses"@) == Some(JsonView::strings(hyps))
            &&& answered.get("hypotheses"@) == Some(JsonView::strings(hyps))
            &&& open.text("function"@) == Some(function)
            &&& open.text("title"@) == Some(title)
        }),
{
    broadcast use crate::json::group_object_reads;

    reveal_strlit("function");
    reveal_strlit("title");
    reveal_strlit("kind");
    reveal_strlit("source_line");
    reveal_strlit("hypotheses");
    reveal_strlit("sections");
    reveal_strlit("conclusion");
    assert("function"@.len() == 8 && "title"@.len() == 5);
    assert("kind"@.len() == 4 && "source_line"@.len() == 11);
    assert("hypotheses"@.len() == 10 && "sections"@.len() == 8);
    assert("conclusion"@.len() == 10);
    assert("function"@[0] != "sections"@[0]);
    assert("hypotheses"@[0] != "conclusion"@[0]);
    reveal_strlit("Prove:");
    reveal_strlit("Prover ");
    reveal_strlit("[wp");
    let t = trim_spec(prove);
    assert(t.subrange(0, 6) =~= "Prove:"@);
    assert(t.subrange(6, t.len() as int) =~= claim);
    assert(t[5] == ':' && t[0] == 'P');
    if begins(t, "Prover "@) {
        assert(t.subrange(0, 7)[5] == 'r');
    }
    if begins(t, "[wp"@) {
        assert(t.subrange(0, 3)[0] == '[');
    }
    lemma_hypotheses_are_kept(hyps);
    let start = hyps + seq![prove];
    assert(start.drop_last() =~= hyps);
    assert(start.last() == prove);
    lemma_conclusion_goes_on(start, more);
    let said = seq![trim_spec(claim)] + more.map_values(|l: Seq<char>| trim_spec(l));
    assert(body_of(start + more).conclusion =~= said);
    let ended = start + more + seq![answer];
    assert(ended.drop_last() =~= start + more);
    assert(ended.last() == answer);
    lemma_what_follows_the_end(ended, rest);
}

/// The kind of an obligation is that of the clause its title speaks of, in any case.
pub proof fn law_a_title_names_its_clause(title: Seq<char>)
    ensures
        ({
            let t = ascii_lower(title);
            let k = print_kind(title);
            let early = occurs(t, "pre-condition"@) || occurs(t, "post-condition"@) || occurs(
                t,
                "assertion"@,
            );
            &&& occurs(t, "pre-condition"@) ==> k == "requires"@
            &&& !occurs(t, "pre-condition"@) && occurs(t, "post-condition"@) ==> k == "ensures"@
            &&& !occurs(t, "pre-condition"@) && !occurs(t, "post-condition"@) && occurs(
                t,
                "assertion"@,
            ) ==> k == "assert"@
            &&& !early && occurs(t, "loop assigns"@) ==> k == "loop_assigns"@
            &&& !early && !occurs(t, "loop assigns"@) && occurs(t, "assigns"@) ==> k == "assigns"@
            &&& !early && !occurs(t, "loop assigns"@) && !occurs(t, "assigns"@) && occurs(
                t,
                "invariant"@,
            ) ==> k == "loop_invariant"@
            &&& !early && !occurs(t, "loop assigns"@) && !occurs(t, "assigns"@) && !occurs(
                t,
                "invariant"@,
            ) && occurs(t, "variant"@) ==> k == "loop_variant"@
        }),
{
}

/// The sections of the hypotheses are their labelled lines, with what stands behind the label.
pub proof fn law_labelled_lines_become_sections(hyps: Seq<Seq<char>>, line: Seq<char>, text: Seq<char>)
    ensures
        trim_spec(line) == "Then {"@ ==> sections(hyps.push(line)).len() == sections(hyps).len() + 1
            && sections(hyps.push(line)).last().text("label"@) == Some("Then"@),
        trim_spec(line) == "(* Heap *)"@ ==> sections(hyps.push(line)).last().text("label"@) == Some(
            "Heap"@,
        ) && sections(hyps.push(line)).len() == sections(hyps).len() + 1,
        trim_spec(line) == "Pre-condition:"@ + text ==> sections(hyps.push(line)).last() == section(
            "Pre-condition"@,
            trim_spec(text),
        ),
        section("Then"@, text).text("label"@) == Some("Then"@),
        section("Then"@, text).text("text"@) == Some(text),
{
    broadcast use crate::json::group_object_reads;

    reveal_strlit("label");
    reveal_strlit("text");
    assert("label"@.len() == 5 && "text"@.len() == 4);
    reveal_strlit("Heap");
    reveal_strlit("Pre-condition");
    reveal_strlit("Invariant");
    reveal_strlit("Then");
    reveal_strlit("Else");
    reveal_strlit("Residual");
    assert("Heap"@.len() == 4 && "Pre-condition"@.len() == 13);
    assert("Invariant"@.len() == 9 && "Then"@.len() == 4);
    assert("Else"@.len() == 4 && "Residual"@.len() == 8);
    assert("Heap"@[0] != "Then"@[0]);
    assert("Heap"@[0] != "Else"@[0]);
    assert("Then"@[0] != "Else"@[0]);
    assert(hyps.push(line).drop_last() =~= hyps);
    let labels = section_labels();
    let t = trim_spec(line);
    reveal_with_fuel(first_label, 7);
    let l5 = labels.drop_last();
    let l4 = l5.drop_last();
    let l3 = l4.drop_last();
    let l2 = l3.drop_last();
    let l1 = l2.drop_last();
    assert(l1 =~= seq!["Heap"@]);
    assert(l2 =~= seq!["Heap"@, "Pre-condition"@]);
    assert(l3 =~= seq!["Heap"@, "Pre-condition"@, "Invariant"@]);
    assert(l4 =~= seq!["Heap"@, "Pre-condition"@, "Invariant"@, "Then"@]);
    assert(l1.drop_last() =~= Seq::empty());
    lemma_label_in_front(t, text);
    assert(l1.last() == "Heap"@ && l2.last() == "Pre-condition"@ && l3.last() == "Invariant"@);
    assert(l4.last() == "Then"@);
}

proof fn lemma_label_in_front(t: Seq<char>, text: Seq<char>)
    ensures
        t == "Then {"@ ==> labelled(t, "Heap"@) is None && labelled(t, "Pre-condition"@) is None
            && labelled(t, "Invariant"@) is None && labelled(t, "Then"@) == Some(
            section("Then"@, ""@),
        ),
        t == "(* Heap *)"@ ==> labelled(t, "Heap"@) == Some(section("Heap"@, ""@)),
        t == "Pre-condition:"@ + text ==> labelled(t, "Heap"@) is None && labelled(
            t,
            "Pre-condition"@,
        ) == Some(section("Pre-condition"@, trim_spec(text))),
{
    reveal_strlit("Heap");
    reveal_strlit("Pre-condition");
    reveal_strlit("Invariant");
    reveal_strlit("Then");
    reveal_strlit("Then {");
    reveal_strlit("(* Heap *)");
    reveal_strlit("Pre-condition:");
    reveal_strlit("(* ");
    reveal_strlit(" *)");
    reveal_strlit(" {");
    reveal_strlit(":");
    assert("Then"@ + " {"@ =~= "Then {"@);
    assert("(* "@ + "Heap"@ + " *)"@ =~= "(* Heap *)"@);
    assert("Pre-condition"@ + ":"@ =~= "Pre-condition:"@);
    let h = "(* "@ + "Heap"@ + " *)"@;
    let p = "(* "@ + "Pre-condition"@ + " *)"@;
    let v = "(* "@ + "Invariant"@ + " *)"@;
    assert(h[0] == '(' && p[0] == '(' && v[0] == '(');
    let hb = "Heap"@ + " {"@;
    let pb = "Pre-condition"@ + " {"@;
    let vb = "Invariant"@ + " {"@;
    assert(hb[0] == 'H' && pb[0] == 'P' && vb[0] == 'I');
    let hc = "Heap"@ + ":"@;
    let pc = "Pre-condition"@ + ":"@;
    let vc = "Invariant"@ + ":"@;
    assert(hc[0] == 'H' && pc[0] == 'P' && vc[0] == 'I');
    if t == "Then {"@ {
        assert(t[0] == 'T');
        if begins(t, hc) {
            assert(t.subrange(0, hc.len() as int)[0] == 'T');
        }
        if begins(t, pc) {
            assert(t.subrange(0, pc.len() as int)[0] == 'T');
        }
        if begins(t, vc) {
            assert(t.subrange(0, vc.len() as int)[0] == 'T');
        }
    }
    if t == "Pre-condition:"@ + text {
        assert(t[0] == 'P');
        assert(t[13] == ':');
        if begins(t, hc) {
            assert(t.subrange(0, hc.len() as int)[0] == 'P');
        }
        assert(pb[13] == ' ');
        assert(t.subrange(0, 14) =~= pc);
        assert(t.subrange(14, t.len() as int) =~= text);
    }
}

proof fn lemma_no_slash(left: Seq<char>, n: nat, right: Seq<char>)
    requires
        crate::text::all_white(left),
        crate::text::all_white(right),
    ensures
        !(left + decimal(n) + right).contains('/'),
{
    let d = decimal(n);
    let a = left + d + right;
    crate::text::lemma_decimal_is_a_word(n);
    if a.contains('/') {
        let i = choose|i: int| 0 <= i < a.len() && a[i] == '/';
        if i < left.len() {
            assert(is_white(left[i]));
        } else if i < left.len() + d.len() {
            assert(d[i - left.len()] == '/');
        } else {
            assert(is_white(right[i - left.len() - d.len()]));
        }
    }
}

/// A line that counts the proved goals tells the proved ones before the slash and all of them
/// behind it.
pub proof fn law_a_line_counts_the_proved_goals(
    start: Seq<char>,
    left: Seq<char>,
    proved: nat,
    right: Seq<char>,
    gap: Seq<char>,
    total: nat,
    tail: Seq<char>,
)
    requires
        !start.contains('P'),
        crate::text::all_white(left),
        crate::text::all_white(right),
        crate::text::all_white(gap),
        tail.len() == 0 || is_white(tail[0]),
        proved <= u64::MAX,
        total <= u64::MAX,
    ensures
        proved_line(
            start + "Proved goals:"@ + (left + decimal(proved) + right + "/"@ + (gap + decimal(total)
                + tail)),
        ) == Some((Some(proved as int), Some(total as int))),
{
    let d = decimal(proved);
    let e = decimal(total);
    let a = left + d + right;
    let b = gap + e + tail;
    assert("Proved goals:"@.len() > 0 && "Proved goals:"@[0] == 'P') by {
        reveal_strlit("Proved goals:");
    }
    assert("/"@.len() > 0 && "/"@[0] == '/') by {
        reveal_strlit("/");
    }
    crate::text::law_split_at_the_mark(start, "Proved goals:"@, a + "/"@ + b);
    lemma_no_slash(left, proved, right);
    crate::text::law_split_at_the_mark(a, "/"@, b);
    crate::text::lemma_decimal_is_a_word(proved);
    crate::text::lemma_decimal_is_a_word(total);
    assert(!is_white(d[0]) && !is_white(d[d.len() - 1]));
    crate::text::law_trimming_takes_the_white_space_around(left, d, right);
    crate::text::law_the_first_word(gap, e, tail);
    crate::text::law_decimal_round_trip(proved, u64::MAX as nat);
    crate::text::law_decimal_round_trip(total, u64::MAX as nat);
}

/// The last line that counts the proved goals is the one that is believed.
pub proof fn law_the_last_count_is_believed(
    before: Seq<Seq<char>>,
    line: Seq<char>,
    counted: (Option<int>, Option<int>),
    quiet: Seq<char>,
)
    requires
        proved_line(line) == Some(counted),
        !occurs(quiet, "Proved goals:"@),
    ensures
        proved_lines(before.push(line)) == counted,
        proved_lines(before.push(line).push(quiet)) == counted,
        proved_lines(Seq::empty()) == (None::<int>, None::<int>),
{
    assert(before.push(line).drop_last() =~= before);
    assert(before.push(line).push(quiet).drop_last() =~= before.push(line));
    if split_once_spec(quiet, "Proved goals:"@) is Some {
        let i = choose|i: int| first_at(quiet, "Proved goals:"@, 0, i);
        assert(stands_at(quiet, "Proved goals:"@, i));
    }
}

/// A printed obligation is put to a condition where it is the only one of its function, its kind
/// and its line; where two fit, or none, the condition is left as it is.
pub proof fn law_an_obligation_is_attached_where_it_alone_fits(
    vc: JsonView,
    blocks: Seq<JsonView>,
    function: Seq<char>,
    line: int,
    i: int,
    j: int,
    key: Seq<char>,
)
    requires
        vc is Object,
        vc.text("function"@) == Some(function),
        vc.text("goal_kind"@) == Some("user_assert"@),
        nat_under(vc, "source_location"@, "line"@) == Some(line),
        0 <= i < blocks.len(),
        blocks[i].text("function"@) == Some(function),
        blocks[i].text("kind"@) == Some("assert"@),
        blocks[i].nat_at("source_line"@) == Some(line),
    ensures
        (forall|k: int|
            0 <= k < blocks.len() && k != i ==> (#[trigger] blocks[k]).nat_at("source_line"@)
                != Some(line)) ==> with_print_block(vc, blocks).get("wp_print"@) == Some(blocks[i]),
        0 <= j < blocks.len() && j != i && blocks[j].text("function"@) == Some(function)
            && blocks[j].text("kind"@) == Some("assert"@) && blocks[j].nat_at("source_line"@) == Some(
            line,
        ) ==> with_print_block(vc, blocks) == vc,
        with_print_block(vc, Seq::empty()) == vc,
        key != "wp_print"@ ==> with_print_block(vc, blocks).get(key) == vc.get(key),
{
    broadcast use crate::json::group_object_reads;

    assert(block_fits(blocks[i], vc));
    if forall|k: int|
        0 <= k < blocks.len() && k != i ==> (#[trigger] blocks[k]).nat_at("source_line"@) != Some(
            line,
        ) {
        assert(only_fit(blocks, vc, i));
        let c = choose|c: int| only_fit(blocks, vc, c);
        assert(c == i);
    }
    if 0 <= j < blocks.len() && j != i && blocks[j].text("function"@) == Some(function)
        && blocks[j].text("kind"@) == Some("assert"@) && blocks[j].nat_at("source_line"@) == Some(
        line,
    ) {
        assert(block_fits(blocks[j], vc));
        if exists|c: int| only_fit(blocks, vc, c) {
            let c = choose|c: int| only_fit(blocks, vc, c);
            assert(i == c && j == c);
        }
    }
}

/// The kind under which a condition is looked for is that of its clause, and `assert` for an
/// assertion and a runtime check.
pub proof fn law_a_condition_is_looked_for_by_its_clause(vc: JsonView, clause: JsonView, kind: Seq<char>)
    ensures
        vc.text("goal_kind"@) == Some("user_assert"@) ==> vc_print_kind(vc) == "assert"@,
        vc.text("goal_kind"@) == Some(kind) && begins(kind, "rte_"@) ==> vc_print_kind(vc)
            == "assert"@,
        vc.text("goal_kind"@) is None && vc.get("related_acsl_clause"@) == Some(clause)
            && clause.text("kind"@) == Some(kind) && (kind == "requires"@ || kind == "ensures"@
            || kind == "assigns"@ || kind == "loop_invariant"@ || kind == "loop_assigns"@ || kind
            == "loop_variant"@) ==> vc_print_kind(vc) == kind,
        vc.text("goal_kind"@) is None && vc.get("related_acsl_clause"@) is None && vc.get("clause"@)
            is None ==> vc_print_kind(vc) == "unknown"@,
{
}

/// A dump of Why3 belongs to the condition that carries its goal under any of its names, with or
/// without the mark of the model; a condition is given the dumps that belong to it and no other.
pub proof fn law_dumps_go_to_their_goal(
    vc: JsonView,
    dumps: Seq<JsonView>,
    dump: JsonView,
    id: Seq<char>,
    i: int,
)
    requires
        vc is Object,
    ensures
        dump.text("goal_id"@) == Some(id) && vc.text("wpo_id"@) == Some(id) ==> dump_fits(dump, vc),
        dump.text("goal_id"@) == Some(id) && vc.text("wpo"@) == Some(id) ==> dump_fits(dump, vc),
        dump.text("goal_id"@) == Some(id) && vc.text("stable_goal_id"@) == Some(id) ==> dump_fits(
            dump,
            vc,
        ),
        dump.text("goal_id"@) is None ==> !dump_fits(dump, vc),
        0 <= i < dumps.len() && dump_fits(dumps[i], vc) ==> match with_dumps(vc, dumps).get(
            "why3_dumps"@,
        ) {
            Some(JsonView::Array(s)) => s.contains(dumps[i]),
            _ => false,
        },
        (forall|k: int| 0 <= k < dumps.len() ==> !dump_fits(#[trigger] dumps[k], vc)) ==> with_dumps(
            vc,
            dumps,
        ) == vc,
{
    broadcast use crate::json::group_object_reads;

    let fits = |d: JsonView| dump_fits(d, vc);
    lemma_kept(dumps, fits, i);
    if dumps.filter(fits).len() > 0 {
        lemma_kept(dumps, fits, 0);
        let k = choose|k: int| 0 <= k < dumps.len() && dumps[k] == dumps.filter(fits)[0];
        assert(dump_fits(dumps[k], vc));
    }
}

/// A dump is shown with its content where it is small enough, and told as cut otherwise; the goal it
/// belongs to is what its name begins with.
pub proof fn law_large_dumps_are_cut(
    name: Seq<char>,
    path: Seq<char>,
    size: int,
    most: int,
    content: Seq<char>,
)
    ensures
        ({
            let e = dump_entry(name, path, size, most, Some(content));
            &&& size <= most ==> e.text("content"@) == Some(content) && e.flag("truncated"@) == Some(
                false,
            )
            &&& size > most ==> e.get("content"@) == Some(JsonView::Null) && e.flag("truncated"@)
                == Some(true)
            &&& e.text("file_name"@) == Some(name)
            &&& e.text("path"@) == Some(path)
            &&& e.get("size_bytes"@) == Some(JsonView::num(size))
        }),
{
    broadcast use crate::json::group_object_reads;

    reveal_strlit("file_name");
    reveal_strlit("path");
    reveal_strlit("goal_id");
    reveal_strlit("size_bytes");
    reveal_strlit("truncated");
    reveal_strlit("content");
    assert("file_name"@.len() == 9 && "path"@.len() == 4);
    assert("goal_id"@.len() == 7 && "size_bytes"@.len() == 10);
    assert("truncated"@.len() == 9 && "content"@.len() == 7);
    assert("file_name"@[0] != "truncated"@[0]);
    assert("goal_id"@[0] != "content"@[0]);
}

/// A warning is a line that says so, or that tells of what WP does not model, trimmed; the missing
/// guards that are always told are left out.
pub proof fn law_warnings_are_collected(ls: Seq<Seq<char>>, line: Seq<char>)
    ensures
        trim_spec(line).len() > 0 && occurs(line, "Warning:"@) && !occurs(
            trim_spec(line),
            "Missing RTE guards"@,
        ) ==> warning_lines(ls.push(line)) == warning_lines(ls).push(trim_spec(line)),
        occurs(trim_spec(line), "Missing RTE guards"@) ==> warning_lines(ls.push(line))
            == warning_lines(ls),
        !occurs(line, "Warning:"@) && !occurs(
            line,
            "Allocation, initialization and danglingness not yet implemented"@,
        ) ==> warning_lines(ls.push(line)) == warning_lines(ls),
{
    assert(ls.push(line).drop_last() =~= ls);
}

/// The predicate and the values of a violation are the lines under their headings, without the
/// closing dot and the dash.
pub proof fn law_a_violation_tells_predicate_and_values(
    s: ViolationView,
    predicate: Seq<char>,
    value: Seq<char>,
    heading: Seq<char>,
)
    requires
        s.in_predicate,
        split_once_spec(trim_spec(predicate), ": In function '"@) is None,
        trim_spec(predicate).len() > 0,
        trim_spec(predicate) != "The failing predicate is:"@,
        trim_spec(predicate) != "With values at failure point:"@,
    ensures
        violation_step(s, predicate, None).predicate == s.predicate.push(
            trim_end_char_spec(trim_spec(predicate), '.'),
        ),
        violation_step(s, predicate, None).values == s.values,
        violation_step(s, predicate, None).function == s.function,
        violation_json(s).get("function"@) == Some(JsonView::opt_text(s.function)),
        violation_json(s).get("file"@) == Some(JsonView::opt_text(s.file)),
        violation_json(s).get("line"@) == Some(JsonView::opt_int(s.line)),
        violation_json(s).get("kind"@) == Some(JsonView::opt_text(s.kind)),
        violation_json(s).text("predicate"@) == Some(join_spec(s.predicate, "\n"@)),
        violation_json(s).get("values"@) == Some(JsonView::strings(s.values)),
{
    broadcast use crate::json::group_object_reads;

    reveal_strlit("function");
    reveal_strlit("file");
    reveal_strlit("line");
    reveal_strlit("kind");
    reveal_strlit("predicate");
    reveal_strlit("values");
    assert("function"@.len() == 8 && "file"@.len() == 4);
    assert("line"@.len() == 4 && "kind"@.len() == 4);
    assert("predicate"@.len() == 9 && "values"@.len() == 6);
    assert("file"@[0] != "line"@[0]);
    assert("file"@[0] != "kind"@[0]);
    assert("line"@[0] != "kind"@[0]);
}

/// What a clean run does not cover is told, each limit under its own name.
pub proof fn law_the_limits_of_runtime_checks()
    ensures
        runtime_boundaries().text("coverage_warning"@) == Some("Runtime checks cover only executed paths and do not validate assigns clauses."@),
        runtime_boundaries().text("assigns_clauses"@) == Some(
            "E-ACSL does not prove assigns clauses; use WP for frame conditions."@,
        ),
        runtime_boundaries().text("integer_arithmetic"@) == Some(
            "ACSL integer arithmetic is checked with unbounded GMP semantics."@,
        ),
        runtime_boundaries().text("executed_paths_only"@) == Some(
            "A clean run covers only the paths executed by this driver."@,
        ),
{
    broadcast use crate::json::group_object_reads;

    reveal_strlit("coverage_warning");
    reveal_strlit("assigns_clauses");
    reveal_strlit("integer_arithmetic");
    reveal_strlit("executed_paths_only");
    assert("coverage_warning"@.len() == 16 && "assigns_clauses"@.len() == 15);
    assert("integer_arithmetic"@.len() == 18 && "executed_paths_only"@.len() == 19);
}

/// A dump names its goal before the mark of Why3, with the model in front where it is not there; the
/// dumps that could be looked at are reported in order.
pub proof fn law_a_dump_names_its_goal(
    goal: Seq<char>,
    rest: Seq<char>,
    dumps: Seq<DumpRead>,
    d: DumpRead,
    max: int,
)
    requires
        !goal.contains('_'),
    ensures
        dump_goal(goal + "_Why3_"@ + rest) == "typed_"@ + goal,
        d.size_bytes is Some ==> dump_entries(dumps.push(d), max) == dump_entries(dumps, max).push(
            dump_entry(
                d.file_name@,
                d.path@,
                d.size_bytes->0 as int,
                max,
                opt_string(d.content),
            ),
        ),
        d.size_bytes is None ==> dump_entries(dumps.push(d), max) == dump_entries(dumps, max),
{
    reveal_strlit("_Why3_");
    reveal_strlit("typed_");
    assert("_Why3_"@[0] == '_');
    assert(dumps.push(d).drop_last() =~= dumps);
    crate::text::law_split_at_the_mark(goal, "_Why3_"@, rest);
    if begins(goal, "typed_"@) {
        assert(goal.subrange(0, 6)[5] == "typed_"@[5]);
        assert(goal[5] == '_');
        assert(goal.contains(goal[5]));
    }
}

/// What WP prints is read line by line: a line that names a function sets it, one that names a goal
/// opens a block of that function under that title, and any other line belongs to the block that is
/// open; a block that is closed stays.
pub proof fn law_printed_goals_become_blocks(
    ls: Seq<Seq<char>>,
    line: Seq<char>,
    function: Seq<char>,
    title: Seq<char>,
    b: BlockView,
)
    ensures
        ({
            let s = print_state(ls);
            let n = print_state(ls.push(line));
            let t = trim_spec(line);
            &&& t == "Function "@ + function && trim_spec(function) == function && !occurs(
                function,
                " with behavior "@,
            ) ==> n.function == function && n.current is None && n.pending is None
            &&& t == "Goal "@ + title + ":"@ && title.len() > 0 && title.last() != ':' && trim_spec(
                title,
            ) == title ==> n.function == s.function && n.pending is None && n.current == Some(
                BlockView { function: s.function, title, body: Seq::empty() },
            )
            &&& (begins(t, "Function "@) || begins(t, "Goal "@)) && s.current == Some(b)
                && s.pending is None ==> n.blocks == s.blocks.push(block_json(b))
            &&& !begins(t, "Function "@) && !begins(t, "Goal "@) && s.current == Some(b)
                && s.pending is None && t != ":"@ && !all_char(t, '-') ==> n.blocks == s.blocks
                && n.function == s.function && n.current == Some(
                BlockView { body: b.body.push(line), ..b },
            )
            &&& n.blocks.len() >= s.blocks.len() && n.blocks.subrange(0, s.blocks.len() as int)
                == s.blocks
        }),
{
    reveal_strlit("Function ");
    reveal_strlit("Goal ");
    reveal_strlit(":");
    assert(ls.push(line).drop_last() =~= ls);
    let s = print_state(ls);
    let n = print_state(ls.push(line));
    let t = trim_spec(line);
    assert(n == print_step(s, line));
    if t == "Function "@ + function {
        assert(t.subrange(0, 9) =~= "Function "@);
        assert(t.subrange(9, t.len() as int) =~= function);
        if trim_spec(function) == function && !occurs(function, " with behavior "@) {
            assert(before_spec(function, " with behavior "@) == function) by {
                if split_once_spec(function, " with behavior "@) is Some {
                    let i = choose|i: int|
                        crate::text::first_at(function, " with behavior "@, 0, i);
                    assert(crate::text::stands_at(function, " with behavior "@, i));
                }
            }
        }
    }
    if t == "Goal "@ + title + ":"@ && title.len() > 0 && title.last() != ':' {
        let rest = title + ":"@;
        assert(t =~= "Goal "@ + rest);
        assert(t.subrange(0, 5) =~= "Goal "@);
        assert(t.subrange(5, t.len() as int) =~= rest);
        assert(t[0] == 'G');
        assert(!begins(t, "Function "@)) by {
            if begins(t, "Function "@) {
                assert(t.subrange(0, 9)[0] == "Function "@[0]);
            }
        }
        assert(rest.last() == ':');
        assert(rest.drop_last() =~= title);
        reveal_with_fuel(trim_end_char_spec, 2);
        assert(trim_end_char_spec(rest, ':') == title);
        assert(t.subrange(t.len() - 1, t.len() as int) =~= ":"@);
        assert(ends(t, ":"@));
    }
    assert(n.blocks.subrange(0, s.blocks.len() as int) =~= s.blocks);
}

/// A condition is printed under the kind of its clause; what concerns behaviors is one kind, and an
/// assertion and a runtime check are another.
pub proof fn law_a_condition_is_printed_under_the_kind_of_its_clause(
    vc: JsonView,
    clause: JsonView,
    k: Seq<char>,
    at: JsonView,
    n: int,
)
    requires
        vc.get("goal_kind"@) is None,
        vc.get("related_acsl_clause"@) == Some(clause),
        clause.text("kind"@) == Some(k),
    ensures
        k == "requires"@ || k == "ensures"@ || k == "assigns"@ || k == "loop_invariant"@ || k
            == "loop_assigns"@ || k == "loop_variant"@ ==> vc_print_kind(vc) == k,
        k == "complete"@ || k == "disjoint"@ || k == "behavior"@ ==> vc_print_kind(vc)
            == "behavior"@,
        k == "assert"@ || k == "assertion"@ ==> vc_print_kind(vc) == "assert"@,
        vc.get("source_location"@) is None && clause.get("loc"@) == Some(at) && at.nat_at("line"@)
            == Some(n) ==> vc_line(vc) == Some(n),
        vc.get("source_location"@) == Some(at) && at.nat_at("line"@) == Some(n) ==> vc_line(vc)
            == Some(n),
{
    reveal_strlit("requires");
    reveal_strlit("ensures");
    reveal_strlit("assigns");
    reveal_strlit("loop_invariant");
    reveal_strlit("loop_assigns");
    reveal_strlit("loop_variant");
    reveal_strlit("complete");
    reveal_strlit("disjoint");
    reveal_strlit("behavior");
    reveal_strlit("assert");
    reveal_strlit("assertion");
    assert("requires"@.len() == 8 && "ensures"@.len() == 7);
    assert("assigns"@.len() == 7 && "loop_invariant"@.len() == 14);
    assert("loop_assigns"@.len() == 12 && "loop_variant"@.len() == 12);
    assert("complete"@.len() == 8 && "disjoint"@.len() == 8);
    assert("behavior"@.len() == 8 && "assert"@.len() == 6);
    assert("assertion"@.len() == 9);
    assert("requires"@[0] != "complete"@[0]);
    assert("requires"@[0] != "disjoint"@[0]);
    assert("requires"@[0] != "behavior"@[0]);
    assert("ensures"@[0] != "assigns"@[0]);
    assert("loop_assigns"@[5] != "loop_variant"@[5]);
    assert("complete"@[0] != "disjoint"@[0]);
    assert("complete"@[0] != "behavior"@[0]);
    assert("disjoint"@[0] != "behavior"@[0]);
}

/// A dump of Why3 is told by its mark and by what its name ends with.
pub proof fn law_a_dump_is_told_by_its_name(name: Seq<char>)
    ensures
        !occurs(name, "_Why3_"@) ==> !dump_name(name),
        occurs(name, "_Why3_"@) && after_last_spec(name, "."@) == "why"@ ==> dump_name(name),
        occurs(name, "_Why3_"@) && after_last_spec(name, "."@) == "psmt2"@ ==> dump_name(name),
        occurs(name, "_Why3_"@) && after_last_spec(name, "."@) == "smt2"@ ==> dump_name(name),
        after_last_spec(name, "."@) != "why"@ && after_last_spec(name, "."@) != "psmt2"@
            && after_last_spec(name, "."@) != "smt2"@ ==> !dump_name(name),
{
}

} // verus!
