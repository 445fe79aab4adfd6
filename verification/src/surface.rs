//! Which sources parse, and what stops the rest.

use crate::error::{ToolError, ToolErrorView};
use crate::json::{lemma_models_push, lemma_take_next, models, Json, JsonView};
use crate::options::{options_complaint, validate_project_options, OptionsView, ProjectLoadOptions};
use crate::order::{
    distinct, is_order, law_sort_by, lemma_place_is, lt, push_distinct, sort_by, sorted_by, text_lt,
};
use crate::outside::{
    decode_lossy, is_alphanumeric, json_parse, json_parse_error, unicode_alphanumeric, utf8_lossy,
};
use crate::paths::{
    absolute, components, has_parent, is_absolute, join_path, joined, parent, parent_path,
};
use crate::text::{
    ascii_lower, cat2, cat3, cat4, cat5, chars_of, contains, decimal, decimal_text, lines,
    lines_spec, occurs, opt_string, own_all, owned, same, split_once, split_once_spec, text_between,
    texts, to_ascii_lowercase, trim, trim_spec,
};
use crate::types::ParseSurfaceParams;
use vstd::prelude::*;

verus! {

// ---------------------------------------------------------------------------
// Why one file does not parse
// ---------------------------------------------------------------------------

/// Why one file would not parse, named so that a caller can act on it.
#[derive(Debug, Clone, PartialEq, Eq)]
pub struct ParseBlock {
    pub cause: &'static str,
    pub subject: Option<String>,
    pub message: String,
}

/// Why one file would not parse, as a mathematical object.
pub struct BlockView {
    pub cause: Seq<char>,
    pub subject: Option<Seq<char>>,
    pub message: Seq<char>,
}

impl View for ParseBlock {
    type V = BlockView;

    open spec fn view(&self) -> BlockView {
        BlockView {
            cause: self.cause@,
            subject: opt_string(self.subject),
            message: self.message@,
        }
    }
}

/// What one file did.
#[derive(Debug, Clone, PartialEq, Eq)]
pub enum ParseProbe {
    Parsed,
    Blocked(ParseBlock),
}

/// What one file did, as a mathematical object.
pub enum ProbeView {
    Parsed,
    Blocked(BlockView),
}

impl View for ParseProbe {
    type V = ProbeView;

    open spec fn view(&self) -> ProbeView {
        match self {
            ParseProbe::Parsed => ProbeView::Parsed,
            ParseProbe::Blocked(b) => ProbeView::Blocked(b@),
        }
    }
}

/// What precedes a name that the kernel could not resolve.
pub const UNRESOLVED: &'static str = "Cannot resolve variable ";

/// Whether a character can stand in a name.
pub open spec fn name_char(c: char) -> bool {
    unicode_alphanumeric(c) || c == '_'
}

/// How many characters of a name follow from `i` on.
pub open spec fn name_end(s: Seq<char>, i: int) -> int
    decreases s.len() - i,
{
    if i < 0 || i >= s.len() || !name_char(s[i]) {
        i
    } else {
        name_end(s, i + 1)
    }
}

/// The name that a line says is declared nowhere.
pub open spec fn unresolved(line: Seq<char>) -> Option<Seq<char>> {
    match split_once_spec(line, UNRESOLVED@) {
        Some((_, rest)) => if name_end(rest, 0) > 0 {
            Some(rest.subrange(0, name_end(rest, 0)))
        } else {
            None
        },
        None => None,
    }
}

/// The identifier out of the kernel's "Cannot resolve variable".
pub fn undeclared_name(line: &str) -> (r: Option<String>)
    ensures
        opt_string(r) == unresolved(line@),
{
    match split_once(line, UNRESOLVED) {
        Some((_, rest)) => {
            let cs = chars_of(rest.as_str());
            let mut i: usize = 0;
            while i < cs.len() && (is_alphanumeric(cs[i]) || cs[i] == '_')
                invariant
                    cs@ == rest@,
                    i <= cs@.len(),
                    name_end(rest@, 0) == name_end(rest@, i as int),
                decreases cs@.len() - i,
            {
                i = i + 1;
            }
            if i > 0 {
                Some(text_between(&cs, 0, i))
            } else {
                None
            }
        },
        None => None,
    }
}

/// The headers that were read out of some lines, as views.
pub open spec fn header_views(v: Seq<Option<String>>) -> Seq<Option<Seq<char>>> {
    v.map_values(|o: Option<String>| opt_string(o))
}

/// The header that a line says is missing.
pub open spec fn header_at(headers: Seq<Option<Seq<char>>>, i: int) -> Option<Seq<char>> {
    if 0 <= i < headers.len() {
        headers[i]
    } else {
        None
    }
}

/// What a line says stopped the parse.
pub open spec fn line_block(line: Seq<char>, header: Option<Seq<char>>) -> Option<BlockView> {
    match header {
        Some(h) => Some(
            BlockView { cause: "header_not_found"@, subject: Some(h), message: trim_spec(line) },
        ),
        None => match unresolved(line) {
            Some(n) => Some(
                BlockView { cause: "undeclared_name"@, subject: Some(n), message: trim_spec(line) },
            ),
            None => None,
        },
    }
}

/// What the first line from `i` on that says so says stopped the parse.
pub open spec fn first_block(
    ls: Seq<Seq<char>>,
    headers: Seq<Option<Seq<char>>>,
    i: int,
) -> Option<BlockView>
    decreases ls.len() - i,
{
    if i < 0 || i >= ls.len() {
        None
    } else {
        match line_block(ls[i], header_at(headers, i)) {
            Some(b) => Some(b),
            None => first_block(ls, headers, i + 1),
        }
    }
}

/// Whether a line reports an error, in any case.
pub open spec fn error_line(line: Seq<char>) -> bool {
    occurs(ascii_lower(line), "user error"@) || occurs(ascii_lower(line), "error:"@)
}

/// The first line from `i` on that reports an error, or nothing.
pub open spec fn first_error(ls: Seq<Seq<char>>, i: int) -> Seq<char>
    decreases ls.len() - i,
{
    if i < 0 || i >= ls.len() {
        Seq::empty()
    } else if error_line(ls[i]) {
        trim_spec(ls[i])
    } else {
        first_error(ls, i + 1)
    }
}

/// What stopped a parse, by the lines it printed: the first cause, because the errors after it
/// are usually its consequences, and else the first error.
pub open spec fn parse_block(ls: Seq<Seq<char>>, headers: Seq<Option<Seq<char>>>) -> BlockView {
    match first_block(ls, headers, 0) {
        Some(b) => b,
        None => BlockView { cause: "other"@, subject: None, message: first_error(ls, 0) },
    }
}

/// Reads the first thing that stopped a parse out of what Frama-C printed. `headers` holds, for
/// each line of the output, the header that the line says is missing.
pub fn classify_parse_failure(output: &str, headers: &Vec<Option<String>>) -> (r: ParseBlock)
    ensures
        r@ == parse_block(lines_spec(output@), header_views(headers@)),
{
    let ls = lines(output);
    let ghost all = texts(ls@);
    let ghost hs = header_views(headers@);
    let mut i: usize = 0;
    while i < ls.len()
        invariant
            i <= ls@.len(),
            all == texts(ls@),
            all == lines_spec(output@),
            hs == header_views(headers@),
            first_block(all, hs, 0) == first_block(all, hs, i as int),
        decreases ls@.len() - i,
    {
        let line = ls[i].as_str();
        let header = if i < headers.len() {
            match &headers[i] {
                Some(h) => Some(owned(h.as_str())),
                None => None,
            }
        } else {
            None
        };
        assert(opt_string(header) == header_at(hs, i as int));
        if header.is_some() {
            return ParseBlock {
                cause: "header_not_found",
                subject: header,
                message: trim(line),
            };
        }
        let name = undeclared_name(line);
        if name.is_some() {
            return ParseBlock { cause: "undeclared_name", subject: name, message: trim(line) };
        }
        i = i + 1;
    }
    let mut k: usize = 0;
    while k < ls.len()
        invariant
            k <= ls@.len(),
            all == texts(ls@),
            all == lines_spec(output@),
            first_block(all, hs, 0) is None,
            hs == header_views(headers@),
            first_error(all, 0) == first_error(all, k as int),
        decreases ls@.len() - k,
    {
        let lower = to_ascii_lowercase(ls[k].as_str());
        if contains(lower.as_str(), "user error") || contains(lower.as_str(), "error:") {
            return ParseBlock { cause: "other", subject: None, message: trim(ls[k].as_str()) };
        }
        k = k + 1;
    }
    ParseBlock { cause: "other", subject: None, message: String::new() }
}

// ---------------------------------------------------------------------------
// One probe
// ---------------------------------------------------------------------------

/// How the run of one probe ended.
#[derive(Debug, Clone, PartialEq, Eq)]
pub enum ProbeRun {
    /// The path is no file, so nothing was run.
    NotAFile,
    /// The run ended, with or without success, and printed something.
    Ended { success: bool, output: String },
    /// The run could not be started.
    NotStarted { error: String },
    /// The run was given up after some seconds.
    TimedOut { seconds: u64 },
}

/// The arguments of one probe: no plug-in is asked for, so that the run is the parse and the
/// typecheck and nothing else.
pub open spec fn probe_args(args: Seq<Seq<char>>, file: Seq<char>) -> Seq<Seq<char>> {
    args.push("-no-autoload-plugins"@).push(file)
}

/// The arguments of one probe.
pub fn probe_command(args: &Vec<String>, file: &str) -> (r: Vec<String>)
    ensures
        texts(r@) == probe_args(texts(args@), file@),
{
    let mut out = own_all(args);
    let ghost all = texts(args@);
    out.push(owned("-no-autoload-plugins"));
    assert(texts(out@) =~= all.push("-no-autoload-plugins"@));
    out.push(owned(file));
    assert(texts(out@) =~= probe_args(all, file@));
    out
}

/// What a probe printed: what it wrote to both of its streams. Frama-C writes its diagnostics to
/// the first.
pub fn probe_output(stdout: &[u8], stderr: &[u8]) -> (r: String)
    ensures
        r@ == utf8_lossy(stdout@) + "\n"@ + utf8_lossy(stderr@),
{
    cat3(decode_lossy(stdout).as_str(), "\n", decode_lossy(stderr).as_str())
}

/// A probe that was blocked by something that names no subject.
pub open spec fn blocked(cause: Seq<char>, message: Seq<char>) -> ProbeView {
    ProbeView::Blocked(BlockView { cause, subject: None, message })
}

/// What one file did, by how its run ended. A path that is no file is not a parse failure, and is
/// not reported as one.
pub open spec fn probe_result(
    program: Seq<char>,
    file: Seq<char>,
    run: ProbeRun,
    headers: Seq<Option<Seq<char>>>,
) -> ProbeView {
    match run {
        ProbeRun::NotAFile => blocked("missing_file"@, file + " is not a file"@),
        ProbeRun::Ended { success, output } => if success {
            ProbeView::Parsed
        } else {
            ProbeView::Blocked(parse_block(lines_spec(output@), headers))
        },
        ProbeRun::NotStarted { error } => blocked(
            "probe_failed"@,
            "could not run "@ + program + ": "@ + error@,
        ),
        ProbeRun::TimedOut { seconds } => blocked(
            "timeout"@,
            "the parse did not finish in "@ + decimal(seconds as nat) + "s"@,
        ),
    }
}

/// What one file did, by how its run ended.
pub fn probe_parse(
    program: &str,
    file: &str,
    run: &ProbeRun,
    headers: &Vec<Option<String>>,
) -> (r: ParseProbe)
    ensures
        r@ == probe_result(program@, file@, *run, header_views(headers@)),
{
    match run {
        ProbeRun::NotAFile => ParseProbe::Blocked(
            ParseBlock {
                cause: "missing_file",
                subject: None,
                message: cat2(file, " is not a file"),
            },
        ),
        ProbeRun::Ended { success, output } => {
            if *success {
                ParseProbe::Parsed
            } else {
                ParseProbe::Blocked(classify_parse_failure(output.as_str(), headers))
            }
        },
        ProbeRun::NotStarted { error } => ParseProbe::Blocked(
            ParseBlock {
                cause: "probe_failed",
                subject: None,
                message: cat4("could not run ", program, ": ", error.as_str()),
            },
        ),
        ProbeRun::TimedOut { seconds } => ParseProbe::Blocked(
            ParseBlock {
                cause: "timeout",
                subject: None,
                message: cat3(
                    "the parse did not finish in ",
                    decimal_text(*seconds).as_str(),
                    "s",
                ),
            },
        ),
    }
}

// ---------------------------------------------------------------------------
// What is asked
// ---------------------------------------------------------------------------

/// Probes running at once: one front end is cheap, a tree's worth in series is not, and a
/// machine's worth at once helps nobody.
pub const PARSE_SURFACE_MAX_PARALLEL: usize = 8;

/// How many probes run at once on a machine with that many cores, where their number is known.
pub fn parse_surface_limit(cores: Option<usize>) -> (r: usize)
    ensures
        r == (match cores {
            Some(n) => if n < PARSE_SURFACE_MAX_PARALLEL {
                n
            } else {
                PARSE_SURFACE_MAX_PARALLEL
            },
            None => 2usize,
        }),
{
    match cores {
        Some(n) => if n < PARSE_SURFACE_MAX_PARALLEL {
            n
        } else {
            PARSE_SURFACE_MAX_PARALLEL
        },
        None => 2,
    }
}

/// What is said when no file is named.
pub const NO_FILES: &'static str =
    "files must name at least one C source. Expand the set in the shell, as in git ls-files \"src/*.c\", so which files were measured stays visible.";

/// The entries of an optional list.
pub open spec fn entries_of(o: Option<Vec<String>>) -> Seq<Seq<char>> {
    match o {
        Some(v) => texts(v@),
        None => Seq::empty(),
    }
}

/// The entries of an optional list.
pub fn or_empty(o: Option<Vec<String>>) -> (r: Vec<String>)
    ensures
        texts(r@) == entries_of(o),
{
    match o {
        Some(v) => v,
        None => {
            let v: Vec<String> = Vec::new();
            assert(texts(v@) =~= Seq::empty());
            v
        },
    }
}

/// The load options that a request to parse names. It reads no compilation database.
pub open spec fn surface_options(p: ParseSurfaceParams) -> OptionsView {
    OptionsView {
        include_paths: entries_of(p.include_paths),
        isystem_paths: entries_of(p.isystem_paths),
        nostdinc: p.nostdinc == Some(true),
        defines: entries_of(p.defines),
        force_includes: entries_of(p.force_includes),
        machdep: opt_string(p.machdep),
        compilation_database: None,
    }
}

/// What is probed, and under which options: at least one file, and options that can be handed to
/// Frama-C.
pub fn parse_surface_request(params: ParseSurfaceParams) -> (r: Result<
    (Vec<String>, ProjectLoadOptions),
    ToolError,
>)
    ensures
        match r {
            Ok((files, options)) => {
                &&& entries_of(params.files).len() > 0
                &&& options_complaint(surface_options(params)) is None
                &&& texts(files@) == entries_of(params.files)
                &&& options@ == surface_options(params)
            },
            Err(e) => if entries_of(params.files).len() == 0 {
                e@ == ToolErrorView::invalid(NO_FILES@)
            } else {
                &&& options_complaint(surface_options(params)) is Some
                &&& e@ == ToolErrorView::invalid(options_complaint(surface_options(params))->0)
            },
        },
{
    let files = or_empty(params.files);
    assert(texts(files@).len() == files@.len());
    if files.len() == 0 {
        return Err(ToolError::invalid(owned(NO_FILES)));
    }
    let options = ProjectLoadOptions {
        include_paths: or_empty(params.include_paths),
        isystem_paths: or_empty(params.isystem_paths),
        nostdinc: matches!(params.nostdinc, Some(true)),
        defines: or_empty(params.defines),
        force_includes: or_empty(params.force_includes),
        machdep: params.machdep,
        compilation_database: None,
    };
    match validate_project_options(&options) {
        Ok(_) => Ok((files, options)),
        Err(e) => Err(e),
    }
}

/// The outcomes of probes by the place of their file, as views.
pub open spec fn numbered(v: Seq<(usize, String, ParseProbe)>) -> Seq<(int, Seq<char>, ProbeView)> {
    v.map_values(|e: (usize, String, ParseProbe)| (e.0 as int, e.1@, e.2@))
}

/// The order of outcomes by the place of their file.
pub open spec fn by_place() -> spec_fn((int, Seq<char>, ProbeView), (int, Seq<char>, ProbeView)) -> bool {
    |a: (int, Seq<char>, ProbeView), b: (int, Seq<char>, ProbeView)| a.0 < b.0
}

/// The outcomes of probes, as views.
pub open spec fn probe_views(v: Seq<(String, ParseProbe)>) -> Seq<(Seq<char>, ProbeView)> {
    v.map_values(|e: (String, ParseProbe)| (e.0@, e.1@))
}

/// Outcomes without the place of their file.
pub open spec fn unnumbered(s: Seq<(int, Seq<char>, ProbeView)>) -> Seq<(Seq<char>, ProbeView)> {
    s.map_values(|e: (int, Seq<char>, ProbeView)| (e.1, e.2))
}

/// The outcomes of probes back in the caller's order. Probes finish in whatever order the parses
/// take, and a report whose files change places from run to run cannot be compared with the last.
pub fn in_caller_order(results: Vec<(usize, String, ParseProbe)>) -> (r: Vec<(String, ParseProbe)>)
    ensures
        probe_views(r@) == unnumbered(sort_by(numbered(results@), by_place())),
{
    let ghost all = numbered(results@);
    let mut places: Vec<usize> = Vec::new();
    let mut out: Vec<(String, ParseProbe)> = Vec::new();
    let mut rest = results;
    let ghost mut done: Seq<(int, Seq<char>, ProbeView)> = Seq::empty();
    let total: usize = rest.len();
    let mut i: usize = 0;
    assert(all.subrange(0, 0) =~= Seq::empty());
    while i < total
        invariant
            i <= total,
            total == all.len(),
            rest@.len() == total - i,
            numbered(rest@) =~= all.subrange(i as int, total as int),
            done == sort_by(all.subrange(0, i as int), by_place()),
            places@.len() == done.len(),
            out@.len() == done.len(),
            forall|k: int| 0 <= k < done.len() ==> (#[trigger] done[k]).0 == places@[k],
            probe_views(out@) =~= unnumbered(done),
        decreases total - i,
    {
        proof {
            lemma_take_next(all, i as int);
            assert(numbered(rest@)[0] == all[i as int]);
        }
        let ghost before = rest@;
        let (place, file, probe) = rest.remove(0);
        let ghost x = all[i as int];
        assert(x == (place as int, file@, probe@));
        assert(numbered(rest@) =~= numbered(before).remove(0));
        let mut k: usize = 0;
        while k < places.len() && !(place < places[k])
            invariant
                k <= places@.len(),
                places@.len() == done.len(),
                x.0 == place,
                forall|j: int| 0 <= j < done.len() ==> (#[trigger] done[j]).0 == places@[j],
                forall|j: int| 0 <= j < k ==> !(by_place())(x, #[trigger] done[j]),
            decreases places@.len() - k,
        {
            assert(done[k as int].0 == places@[k as int]);
            k = k + 1;
        }
        proof {
            if k < done.len() {
                assert(done[k as int].0 == places@[k as int]);
            }
            lemma_place_is(done, x, by_place(), k as int);
        }
        let ghost out_before = out@;
        let ghost places_before = places@;
        let ghost done_before = done;
        places.insert(k, place);
        out.insert(k, (file, probe));
        proof {
            done = done.insert(k as int, x);
            assert forall|j: int| 0 <= j < done.len() implies (#[trigger] done[j]).0
                == places@[j] by {
                if j < k {
                    assert(done[j] == done_before[j]);
                } else if j > k {
                    assert(done[j] == done_before[j - 1]);
                }
            }
            assert(probe_views(out@) =~= probe_views(out_before).insert(
                k as int,
                (x.1, x.2),
            ));
            assert(unnumbered(done) =~= unnumbered(done_before).insert(
                k as int,
                (x.1, x.2),
            ));
        }
        i = i + 1;
    }
    assert(all.subrange(0, i as int) =~= all);
    out
}

// ---------------------------------------------------------------------------
// The report
// ---------------------------------------------------------------------------

/// The files that one cause blocks: what it is, how many they are, and the first of them.
pub struct BlockGroup {
    pub cause: &'static str,
    pub subject: String,
    pub files: u64,
    pub example: String,
}

/// The files that one cause blocks, as a mathematical object.
pub struct GroupView {
    pub cause: Seq<char>,
    pub subject: Seq<char>,
    pub files: int,
    pub example: Seq<char>,
}

impl View for BlockGroup {
    type V = GroupView;

    open spec fn view(&self) -> GroupView {
        GroupView {
            cause: self.cause@,
            subject: self.subject@,
            files: self.files as int,
            example: self.example@,
        }
    }
}

/// Groups, as views.
pub open spec fn group_views(v: Seq<BlockGroup>) -> Seq<GroupView> {
    v.map_values(|g: BlockGroup| g@)
}

/// The subject of a block, which is empty where it has none.
pub open spec fn subject_of(b: BlockView) -> Seq<char> {
    match b.subject {
        Some(s) => s,
        None => Seq::empty(),
    }
}

/// Whether a group is that of a cause and its subject.
pub open spec fn is_group(g: GroupView, cause: Seq<char>, subject: Seq<char>) -> bool {
    g.cause == cause && g.subject == subject
}

/// The place of the group of a cause and its subject, or the number of groups.
pub open spec fn group_at(gs: Seq<GroupView>, cause: Seq<char>, subject: Seq<char>) -> int
    decreases gs.len(),
{
    if gs.len() == 0 {
        0
    } else {
        let i = group_at(gs.drop_last(), cause, subject);
        if i < gs.len() - 1 || is_group(gs.last(), cause, subject) {
            i
        } else {
            gs.len() as int
        }
    }
}

/// Groups with one more blocked file.
pub open spec fn with_blocked(
    gs: Seq<GroupView>,
    cause: Seq<char>,
    subject: Seq<char>,
    file: Seq<char>,
) -> Seq<GroupView> {
    let i = group_at(gs, cause, subject);
    if i < gs.len() {
        gs.update(i, GroupView { files: gs[i].files + 1, ..gs[i] })
    } else {
        gs.push(GroupView { cause, subject, files: 1, example: file })
    }
}

/// The groups of some outcomes, in the order in which they were first met.
pub open spec fn groups(probed: Seq<(Seq<char>, ProbeView)>) -> Seq<GroupView>
    decreases probed.len(),
{
    if probed.len() == 0 {
        Seq::empty()
    } else {
        let rest = groups(probed.drop_last());
        match probed.last().1 {
            ProbeView::Parsed => rest,
            ProbeView::Blocked(b) => with_blocked(rest, b.cause, subject_of(b), probed.last().0),
        }
    }
}

/// How many files parsed.
pub open spec fn parsed_count(probed: Seq<(Seq<char>, ProbeView)>) -> int
    decreases probed.len(),
{
    if probed.len() == 0 {
        0
    } else {
        parsed_count(probed.drop_last()) + (if probed.last().1 is Parsed {
            1int
        } else {
            0
        })
    }
}

/// The rank of groups: those that block more files first, because closing the largest buys the
/// most, and then by subject and cause, so that two runs over one tree give one answer.
pub open spec fn ranks_before(a: GroupView, b: GroupView) -> bool {
    a.files > b.files || (a.files == b.files && (text_lt(a.subject, b.subject) || (a.subject
        == b.subject && text_lt(a.cause, b.cause))))
}

/// The rank of groups, as a relation.
pub open spec fn by_rank() -> spec_fn(GroupView, GroupView) -> bool {
    |a: GroupView, b: GroupView| ranks_before(a, b)
}

/// The groups of some outcomes, ranked.
pub open spec fn ranked(probed: Seq<(Seq<char>, ProbeView)>) -> Seq<GroupView> {
    sort_by(groups(probed), by_rank())
}

/// How a group is reported.
pub open spec fn group_json(g: GroupView) -> JsonView {
    JsonView::object().with("cause"@, JsonView::Str(g.cause)).with(
        "subject"@,
        if g.subject.len() == 0 {
            JsonView::Null
        } else {
            JsonView::Str(g.subject)
        },
    ).with("files"@, JsonView::num(g.files)).with("example"@, JsonView::Str(g.example))
}

/// How one file is reported.
pub open spec fn file_json(e: (Seq<char>, ProbeView)) -> JsonView {
    match e.1 {
        ProbeView::Parsed => JsonView::object().with("file"@, JsonView::Str(e.0)).with(
            "parses"@,
            JsonView::Bool(true),
        ),
        ProbeView::Blocked(b) => JsonView::object().with("file"@, JsonView::Str(e.0)).with(
            "parses"@,
            JsonView::Bool(false),
        ).with("cause"@, JsonView::Str(b.cause)).with("subject"@, JsonView::opt_text(b.subject)).with(
            "message"@,
            JsonView::Str(b.message),
        ),
    }
}

/// What is said of a header that was not found, after its name.
pub const HEADER_BLOCKS: &'static str = " was not found on the include path and blocks ";

/// What is said of a header that was not found, after the number of files.
pub const HEADER_ADVICE: &'static str =
    " of these files. Two different things look like this. If it belongs to this project, the include path is short an entry and no stub is called for. If it is a system header Frama-C's libc does not model, writing one that declares only what this tree calls does not model it either: the analysis would reason about bodies that do not exist, and a proof resting on that is worth less than no proof. Check which it is before writing anything.";

/// What is said of a name that is declared nowhere, after the name.
pub const NAME_BLOCKS: &'static str = " is declared nowhere the analyzer can see and blocks ";

/// What is said of a name that is declared nowhere, after the number of files.
pub const NAME_ADVICE: &'static str =
    " of these files. This is the case a stub answers honestly: declare it as the platform declares it, with the same type.";

/// What is said of parses that did not finish, after their number.
pub const TIMEOUT_ADVICE: &'static str =
    " of these files did not finish parsing. That is a front end problem rather than a missing declaration; read one of them directly.";

/// What is said of paths that are no files, after their number.
pub const MISSING_ADVICE: &'static str =
    " of these paths are not files. Nothing was measured for them, so they are not evidence either way about what parses; check how the list was built.";

/// What is said of any other cause, after the number of files.
pub const OTHER_ADVICE: &'static str =
    " of these files. Its message is in the per-file list, which detail: \"full\" returns; read it before deciding what it is.";

/// What to do about the largest group, in the terms that group deserves.
pub open spec fn group_advice(g: GroupView) -> Seq<char> {
    let count = decimal(g.files as nat);
    if g.cause == "header_not_found"@ {
        g.subject + HEADER_BLOCKS@ + count + HEADER_ADVICE@
    } else if g.cause == "undeclared_name"@ {
        g.subject + NAME_BLOCKS@ + count + NAME_ADVICE@
    } else if g.cause == "timeout"@ {
        count + TIMEOUT_ADVICE@
    } else if g.cause == "missing_file"@ {
        count + MISSING_ADVICE@
    } else {
        "The largest group is "@ + g.cause + ", blocking "@ + count + OTHER_ADVICE@
    }
}

/// A next action that names no tool.
pub open spec fn advice_json(reason: Seq<char>, blockers: JsonView, confidence: Seq<char>) -> JsonView {
    JsonView::object().with("tool"@, JsonView::Null).with("args"@, JsonView::object()).with(
        "reason"@,
        JsonView::Str(reason),
    ).with("blockers"@, blockers).with("confidence"@, JsonView::Str(confidence))
}

/// What to do next, by the ranked groups.
pub open spec fn next_action(gs: Seq<GroupView>) -> JsonView {
    if gs.len() == 0 {
        advice_json(
            "Every file parsed under these flags."@,
            JsonView::Array(Seq::empty()),
            "high"@,
        )
    } else {
        advice_json(
            group_advice(gs[0]),
            JsonView::Array(seq![JsonView::Str(gs[0].cause)]),
            "medium"@,
        )
    }
}

/// The report of some outcomes.
pub open spec fn surface(probed: Seq<(Seq<char>, ProbeView)>, full: bool) -> JsonView {
    let parsed = parsed_count(probed);
    let gs = ranked(probed);
    let payload = JsonView::object().with("files_total"@, JsonView::num(probed.len() as int)).with(
        "files_parsed"@,
        JsonView::num(parsed),
    ).with("files_blocked"@, JsonView::num(probed.len() - parsed)).with(
        "blocked_by"@,
        JsonView::Array(gs.map_values(|g: GroupView| group_json(g))),
    ).with("next_action"@, next_action(gs));
    if full {
        payload.with(
            "files"@,
            JsonView::Array(probed.map_values(|e: (Seq<char>, ProbeView)| file_json(e))),
        )
    } else {
        payload
    }
}

proof fn lemma_group_at(gs: Seq<GroupView>, cause: Seq<char>, subject: Seq<char>)
    ensures
        0 <= group_at(gs, cause, subject) <= gs.len(),
        group_at(gs, cause, subject) < gs.len() ==> is_group(
            gs[group_at(gs, cause, subject)],
            cause,
            subject,
        ),
        forall|i: int|
            0 <= i < group_at(gs, cause, subject) ==> !is_group(#[trigger] gs[i], cause, subject),
    decreases gs.len(),
{
    if gs.len() > 0 {
        let t = gs.drop_last();
        lemma_group_at(t, cause, subject);
        assert forall|i: int| 0 <= i < group_at(gs, cause, subject) implies !is_group(
            #[trigger] gs[i],
            cause,
            subject,
        ) by {
            if i < t.len() {
                assert(t[i] == gs[i]);
            }
        }
    }
}

proof fn lemma_group_is(gs: Seq<GroupView>, cause: Seq<char>, subject: Seq<char>, k: int)
    requires
        0 <= k <= gs.len(),
        forall|i: int| 0 <= i < k ==> !is_group(#[trigger] gs[i], cause, subject),
        k < gs.len() ==> is_group(gs[k], cause, subject),
    ensures
        group_at(gs, cause, subject) == k,
{
    lemma_group_at(gs, cause, subject);
    let p = group_at(gs, cause, subject);
    if p < k {
        assert(!is_group(gs[p], cause, subject));
    } else if k < p {
        assert(!is_group(gs[k], cause, subject));
    }
}

/// Whether every group has at most `n` files.
pub open spec fn files_at_most(gs: Seq<GroupView>, n: int) -> bool {
    forall|i: int| 0 <= i < gs.len() ==> 0 < (#[trigger] gs[i]).files <= n
}

fn add_blocked(gs: &mut Vec<BlockGroup>, cause: &'static str, subject: String, file: &str)
    requires
        files_at_most(group_views(old(gs)@), u64::MAX as int - 1),
    ensures
        group_views(final(gs)@) == with_blocked(group_views(old(gs)@), cause@, subject@, file@),
{
    let ghost s = group_views(gs@);
    let mut k: usize = 0;
    while k < gs.len() && !(same(gs[k].cause, cause) && same(
        gs[k].subject.as_str(),
        subject.as_str(),
    ))
        invariant
            gs@ == old(gs)@,
            k <= gs@.len(),
            s == group_views(gs@),
            forall|i: int| 0 <= i < k ==> !is_group(#[trigger] s[i], cause@, subject@),
        decreases gs@.len() - k,
    {
        assert(s[k as int] == gs@[k as int]@);
        k = k + 1;
    }
    proof {
        if k < s.len() {
            assert(s[k as int] == gs@[k as int]@);
        }
        lemma_group_is(s, cause@, subject@, k as int);
    }
    if k < gs.len() {
        assert(s[k as int].files <= u64::MAX - 1);
        let g = BlockGroup {
            cause: gs[k].cause,
            subject: owned(gs[k].subject.as_str()),
            files: gs[k].files + 1,
            example: owned(gs[k].example.as_str()),
        };
        gs.set(k, g);
        assert(group_views(gs@) =~= s.update(k as int, g@));
    } else {
        let g = BlockGroup { cause, subject, files: 1, example: owned(file) };
        gs.push(g);
        assert(group_views(gs@) =~= s.push(g@));
    }
}

fn rank_before(a: &BlockGroup, b: &BlockGroup) -> (r: bool)
    ensures
        r == ranks_before(a@, b@),
{
    if a.files != b.files {
        a.files > b.files
    } else if same(a.subject.as_str(), b.subject.as_str()) {
        proof {
            crate::order::law_text_lt_irreflexive(a.subject@);
        }
        lt(a.cause, b.cause)
    } else {
        lt(a.subject.as_str(), b.subject.as_str())
    }
}

fn rank_groups(gs: Vec<BlockGroup>) -> (r: Vec<BlockGroup>)
    ensures
        group_views(r@) == sort_by(group_views(gs@), by_rank()),
{
    let ghost all = group_views(gs@);
    let total: usize = gs.len();
    let mut rest = gs;
    let mut out: Vec<BlockGroup> = Vec::new();
    let mut i: usize = 0;
    assert(all.subrange(0, 0) =~= Seq::empty());
    assert(group_views(out@) =~= Seq::empty());
    while i < total
        invariant
            i <= total,
            total == all.len(),
            rest@.len() == total - i,
            group_views(rest@) =~= all.subrange(i as int, total as int),
            group_views(out@) == sort_by(all.subrange(0, i as int), by_rank()),
        decreases total - i,
    {
        proof {
            lemma_take_next(all, i as int);
        }
        let ghost before = rest@;
        let ghost s = group_views(out@);
        assert(group_views(rest@)[0] == all[i as int]);
        let g = rest.remove(0);
        assert(g@ == all[i as int]);
        assert(group_views(rest@) =~= group_views(before).remove(0));
        let mut k: usize = 0;
        while k < out.len() && !rank_before(&g, &out[k])
            invariant
                k <= out@.len(),
                s == group_views(out@),
                forall|j: int| 0 <= j < k ==> !(by_rank())(g@, #[trigger] s[j]),
            decreases out@.len() - k,
        {
            assert(s[k as int] == out@[k as int]@);
            k = k + 1;
        }
        proof {
            if k < s.len() {
                assert(s[k as int] == out@[k as int]@);
            }
            lemma_place_is(s, g@, by_rank(), k as int);
        }
        out.insert(k, g);
        assert(group_views(out@) =~= s.insert(k as int, g@));
        i = i + 1;
    }
    assert(all.subrange(0, i as int) =~= all);
    out
}

fn group_value(g: &BlockGroup) -> (r: Json)
    ensures
        r@ == group_json(g@),
{
    let subject = if g.subject.as_str().is_empty() {
        Json::Null
    } else {
        Json::str(g.subject.as_str())
    };
    Json::object().with("cause", Json::str(g.cause)).with("subject", subject).with(
        "files",
        Json::num(g.files),
    ).with("example", Json::str(g.example.as_str()))
}

fn file_value(file: &str, probe: &ParseProbe) -> (r: Json)
    ensures
        r@ == file_json((file@, probe@)),
{
    match probe {
        ParseProbe::Parsed => Json::object().with("file", Json::str(file)).with(
            "parses",
            Json::Bool(true),
        ),
        ParseProbe::Blocked(b) => {
            let subject = match &b.subject {
                Some(s) => Json::str(s.as_str()),
                None => Json::Null,
            };
            Json::object().with("file", Json::str(file)).with("parses", Json::Bool(false)).with(
                "cause",
                Json::str(b.cause),
            ).with("subject", subject).with("message", Json::str(b.message.as_str()))
        },
    }
}

/// What to do about the largest group, in the terms that group deserves.
pub fn parse_surface_next_action(gs: &Vec<BlockGroup>) -> (r: Json)
    ensures
        r@ == next_action(group_views(gs@)),
{
    let none = Json::list0();
    if gs.len() == 0 {
        return Json::object().with("tool", Json::Null).with("args", Json::object()).with(
            "reason",
            Json::str("Every file parsed under these flags."),
        ).with("blockers", none).with("confidence", Json::str("high"));
    }
    let g = &gs[0];
    assert(group_views(gs@)[0] == g@);
    let count = decimal_text(g.files);
    let count = count.as_str();
    let reason = if same(g.cause, "header_not_found") {
        cat4(g.subject.as_str(), HEADER_BLOCKS, count, HEADER_ADVICE)
    } else if same(g.cause, "undeclared_name") {
        cat4(g.subject.as_str(), NAME_BLOCKS, count, NAME_ADVICE)
    } else if same(g.cause, "timeout") {
        cat2(count, TIMEOUT_ADVICE)
    } else if same(g.cause, "missing_file") {
        cat2(count, MISSING_ADVICE)
    } else {
        cat5("The largest group is ", g.cause, ", blocking ", count, OTHER_ADVICE)
    };
    Json::object().with("tool", Json::Null).with("args", Json::object()).with(
        "reason",
        Json::Str(reason),
    ).with("blockers", Json::list1(Json::str(g.cause))).with("confidence", Json::str("medium"))
}

proof fn lemma_files_bounded(probed: Seq<(Seq<char>, ProbeView)>)
    ensures
        files_at_most(groups(probed), probed.len() as int),
        0 <= parsed_count(probed) <= probed.len(),
    decreases probed.len(),
{
    if probed.len() > 0 {
        lemma_files_bounded(probed.drop_last());
        let gs = groups(probed.drop_last());
        match probed.last().1 {
            ProbeView::Parsed => {},
            ProbeView::Blocked(b) => {
                lemma_group_at(gs, b.cause, subject_of(b));
            },
        }
    }
}

/// The report, assembled from what the probes found.
pub fn parse_surface_payload(probed: &Vec<(String, ParseProbe)>, full: bool) -> (r: Json)
    ensures
        r@ == surface(probe_views(probed@), full),
{
    let ghost all = probe_views(probed@);
    let mut gs: Vec<BlockGroup> = Vec::new();
    let mut files: Vec<Json> = Vec::new();
    let mut parsed: u64 = 0;
    let mut i: usize = 0;
    proof {
        assert(group_views(gs@) =~= Seq::empty());
        assert(all.subrange(0, 0) =~= Seq::empty());
        assert(models(files@) =~= Seq::empty());
    }
    while i < probed.len()
        invariant
            i <= probed@.len(),
            all == probe_views(probed@),
            parsed == parsed_count(all.subrange(0, i as int)),
            parsed <= i,
            group_views(gs@) == groups(all.subrange(0, i as int)),
            models(files@) =~= (if full {
                all.subrange(0, i as int).map_values(|e: (Seq<char>, ProbeView)| file_json(e))
            } else {
                Seq::empty()
            }),
        decreases probed@.len() - i,
    {
        proof {
            lemma_take_next(all, i as int);
            lemma_files_bounded(all.subrange(0, i as int));
        }
        let (file, probe) = &probed[i];
        assert(all[i as int] == (file@, probe@));
        match probe {
            ParseProbe::Parsed => {
                parsed = parsed + 1;
            },
            ParseProbe::Blocked(b) => {
                let subject = match &b.subject {
                    Some(s) => owned(s.as_str()),
                    None => String::new(),
                };
                assert(subject@ =~= subject_of(b@));
                add_blocked(&mut gs, b.cause, subject, file.as_str());
            },
        }
        if full {
            let v = file_value(file.as_str(), probe);
            proof {
                lemma_models_push(files@, v);
            }
            files.push(v);
        }
        i = i + 1;
    }
    assert(all.subrange(0, i as int) =~= all);
    let ghost unranked = group_views(gs@);
    let gs = rank_groups(gs);
    let ghost top = group_views(gs@);
    let mut rows: Vec<Json> = Vec::new();
    let mut k: usize = 0;
    while k < gs.len()
        invariant
            k <= gs@.len(),
            top == group_views(gs@),
            models(rows@) =~= top.subrange(0, k as int).map_values(|g: GroupView| group_json(g)),
        decreases gs@.len() - k,
    {
        let v = group_value(&gs[k]);
        proof {
            lemma_models_push(rows@, v);
            assert(top[k as int] == gs@[k as int]@);
        }
        rows.push(v);
        k = k + 1;
    }
    assert(top.subrange(0, k as int) =~= top);
    let action = parse_surface_next_action(&gs);
    let total: usize = probed.len();
    let payload = Json::object().with("files_total", Json::num(total as u64)).with(
        "files_parsed",
        Json::num(parsed),
    ).with("files_blocked", Json::num(total as u64 - parsed)).with(
        "blocked_by",
        Json::array(rows),
    ).with("next_action", action);
    if full {
        payload.with("files", Json::array(files))
    } else {
        payload
    }
}

/// How many files some groups block.
pub open spec fn total_files(gs: Seq<GroupView>) -> int
    decreases gs.len(),
{
    if gs.len() == 0 {
        0
    } else {
        total_files(gs.drop_last()) + gs.last().files
    }
}

proof fn lemma_total_update(gs: Seq<GroupView>, i: int, g: GroupView)
    requires
        0 <= i < gs.len(),
    ensures
        total_files(gs.update(i, g)) == total_files(gs) - gs[i].files + g.files,
    decreases gs.len(),
{
    let r = gs.update(i, g);
    if i == gs.len() - 1 {
        assert(r.drop_last() =~= gs.drop_last());
    } else {
        assert(r.drop_last() =~= gs.drop_last().update(i, g));
        lemma_total_update(gs.drop_last(), i, g);
    }
}

/// Every file either parsed or is counted in exactly one group.
pub proof fn law_every_file_is_counted_once(probed: Seq<(Seq<char>, ProbeView)>)
    ensures
        parsed_count(probed) + total_files(groups(probed)) == probed.len(),
    decreases probed.len(),
{
    if probed.len() > 0 {
        law_every_file_is_counted_once(probed.drop_last());
        let gs = groups(probed.drop_last());
        match probed.last().1 {
            ProbeView::Parsed => {},
            ProbeView::Blocked(b) => {
                lemma_group_at(gs, b.cause, subject_of(b));
                let i = group_at(gs, b.cause, subject_of(b));
                if i < gs.len() {
                    lemma_total_update(gs, i, GroupView { files: gs[i].files + 1, ..gs[i] });
                } else {
                    let r = with_blocked(gs, b.cause, subject_of(b), probed.last().0);
                    assert(r.drop_last() =~= gs);
                }
            },
        }
    }
}

/// No two groups are of one cause and subject.
pub proof fn law_groups_differ(probed: Seq<(Seq<char>, ProbeView)>, i: int, j: int)
    requires
        0 <= i < j < groups(probed).len(),
    ensures
        !is_group(groups(probed)[j], groups(probed)[i].cause, groups(probed)[i].subject),
    decreases probed.len(),
{
    let gs = groups(probed.drop_last());
    match probed.last().1 {
        ProbeView::Parsed => {
            law_groups_differ(probed.drop_last(), i, j);
        },
        ProbeView::Blocked(b) => {
            lemma_group_at(gs, b.cause, subject_of(b));
            if j < gs.len() {
                law_groups_differ(probed.drop_last(), i, j);
            } else {
                assert(!is_group(gs[i], b.cause, subject_of(b)));
            }
        },
    }
}

proof fn lemma_rank_is_order()
    ensures
        is_order(by_rank()),
{
    let o = by_rank();
    assert forall|a: GroupView| !#[trigger] o(a, a) by {
        crate::order::law_text_lt_irreflexive(a.subject);
        crate::order::law_text_lt_irreflexive(a.cause);
    }
    assert forall|a: GroupView, b: GroupView, c: GroupView| #[trigger] o(a, b) && #[trigger] o(
        b,
        c,
    ) implies o(a, c) by {
        if text_lt(a.subject, b.subject) && text_lt(b.subject, c.subject) {
            crate::order::law_text_lt_transitive(a.subject, b.subject, c.subject);
        }
        if text_lt(a.cause, b.cause) && text_lt(b.cause, c.cause) {
            crate::order::law_text_lt_transitive(a.cause, b.cause, c.cause);
        }
    }
    assert forall|a: GroupView, b: GroupView, c: GroupView| !#[trigger] o(a, b) && !#[trigger] o(
        b,
        c,
    ) implies !o(a, c) by {
        crate::order::law_text_lt_total(a.subject, b.subject);
        crate::order::law_text_lt_total(b.subject, c.subject);
        crate::order::law_text_lt_total(a.cause, b.cause);
        crate::order::law_text_lt_total(b.cause, c.cause);
        crate::order::law_text_lt_irreflexive(a.subject);
        crate::order::law_text_lt_irreflexive(a.cause);
        if text_lt(b.subject, a.subject) && text_lt(c.subject, b.subject) {
            crate::order::law_text_lt_transitive(c.subject, b.subject, a.subject);
        }
        if text_lt(b.cause, a.cause) && text_lt(c.cause, b.cause) {
            crate::order::law_text_lt_transitive(c.cause, b.cause, a.cause);
        }
        if text_lt(a.subject, c.subject) && text_lt(c.subject, a.subject) {
            crate::order::law_text_lt_transitive(a.subject, c.subject, a.subject);
        }
        if text_lt(a.cause, c.cause) && text_lt(c.cause, a.cause) {
            crate::order::law_text_lt_transitive(a.cause, c.cause, a.cause);
        }
    }
}

/// The causes are reported from the one that blocks most files on, and none is lost by ranking.
pub proof fn law_causes_are_ranked(probed: Seq<(Seq<char>, ProbeView)>)
    ensures
        sorted_by(ranked(probed), by_rank()),
        ranked(probed).to_multiset() == groups(probed).to_multiset(),
        ranked(probed).len() == groups(probed).len(),
{
    lemma_rank_is_order();
    law_sort_by(groups(probed), by_rank());
}

// ---------------------------------------------------------------------------
// Compilation databases
// ---------------------------------------------------------------------------

/// The source that an entry of a compilation database names, resolved against its directory.
pub open spec fn entry_file(entry: JsonView, default_directory: Seq<char>) -> Option<Seq<char>> {
    match entry.text("file"@) {
        Some(file) => Some(
            if absolute(file) {
                file
            } else {
                joined(
                    match entry.text("directory"@) {
                        Some(d) => d,
                        None => default_directory,
                    },
                    file,
                )
            },
        ),
        None => None,
    }
}

/// Whether every entry of a compilation database names a source.
pub open spec fn all_name_files(entries: Seq<JsonView>) -> bool {
    forall|i: int| 0 <= i < entries.len() ==> (#[trigger] entries[i]).text("file"@) is Some
}

/// The sources that the entries of a compilation database name.
pub open spec fn entry_files(entries: Seq<JsonView>, default_directory: Seq<char>) -> Seq<Seq<char>> {
    entries.map_values(|e: JsonView| entry_file(e, default_directory)->0)
}

/// The sources of a compilation database, or why it has none.
pub open spec fn database_files(text: Seq<char>, default_directory: Seq<char>) -> Result<
    Seq<Seq<char>>,
    Seq<char>,
> {
    match json_parse(text) {
        None => Err("failed to parse compilation database JSON: "@ + json_parse_error(text)),
        Some(v) => match v.as_list() {
            None => Err("compilation database must be a JSON array"@),
            Some(entries) => if !all_name_files(entries) {
                Err("compilation database entry is missing file"@)
            } else if entries.len() == 0 {
                Err("compilation database contains no files"@)
            } else {
                Ok(distinct(entry_files(entries, default_directory)))
            },
        },
    }
}

/// The files that some entries of a compilation database name, or why they name none. The second
/// argument is the directory that the database lies in.
pub fn compile_database_entries(entries: &Vec<Json>, default_directory: &str) -> (r: Result<
    Vec<String>,
    ToolError,
>)
    ensures
        match r {
            Ok(files) => {
                &&& all_name_files(models(entries@))
                &&& entries@.len() > 0
                &&& texts(files@) == distinct(entry_files(models(entries@), default_directory@))
            },
            Err(e) => if !all_name_files(models(entries@)) {
                e@ == ToolErrorView::invalid("compilation database entry is missing file"@)
            } else {
                &&& entries@.len() == 0
                &&& e@ == ToolErrorView::invalid("compilation database contains no files"@)
            },
        },
{
    let ghost all = models(entries@);
    let ghost dir = default_directory@;
    let mut out: Vec<String> = Vec::new();
    let mut i: usize = 0;
    assert(texts(out@) =~= Seq::empty());
    while i < entries.len()
        invariant
            i <= entries@.len(),
            all == models(entries@),
            dir == default_directory@,
            forall|k: int| 0 <= k < i ==> (#[trigger] all[k]).text("file"@) is Some,
            texts(out@) == distinct(entry_files(all, dir).subrange(0, i as int)),
        decreases entries@.len() - i,
    {
        let ghost listed = entry_files(all, dir);
        proof {
            lemma_take_next(listed, i as int);
        }
        let entry = &entries[i];
        assert(entry@ == all[i as int]);
        match entry.text("file") {
            Some(file) => {
                let resolved = if is_absolute(file) {
                    owned(file)
                } else {
                    match entry.text("directory") {
                        Some(d) => join_path(d, file),
                        None => join_path(default_directory, file),
                    }
                };
                assert(listed[i as int] == resolved@);
                push_distinct(&mut out, resolved);
            },
            None => {
                return Err(
                    ToolError::invalid(owned("compilation database entry is missing file")),
                );
            },
        }
        i = i + 1;
    }
    assert(entry_files(all, dir).subrange(0, i as int) =~= entry_files(all, dir));
    if entries.len() == 0 {
        return Err(ToolError::invalid(owned("compilation database contains no files")));
    }
    Ok(out)
}

/// The directory that a compilation database lies in, which its entries are relative to.
pub open spec fn directory_of_database(path: Seq<char>) -> Seq<char> {
    match parent(path) {
        Some(above) => above,
        None => "."@,
    }
}

/// The directory that a compilation database lies in. A path without one stays where it is.
pub fn database_directory(path: &str) -> (r: String)
    ensures
        r@ == directory_of_database(path@),
        has_parent(path@) ==> components(r@) == components(path@).drop_last(),
        !has_parent(path@) ==> r@ == "."@,
{
    match parent_path(path) {
        Some(above) => above,
        None => owned("."),
    }
}

/// The sources that the text of a compilation database names, each once. The second argument is
/// the directory that the database lies in.
pub fn compile_database_files(text: &str, default_directory: &str) -> (r: Result<
    Vec<String>,
    ToolError,
>)
    ensures
        match r {
            Ok(files) => database_files(text@, default_directory@) == Ok::<_, Seq<char>>(
                texts(files@),
            ),
            Err(e) => {
                &&& database_files(text@, default_directory@) is Err
                &&& e@ == ToolErrorView::invalid(
                    database_files(text@, default_directory@)->Err_0,
                )
            },
        },
{
    match Json::parse(text) {
        Err(e) => Err(
            ToolError::invalid(cat2("failed to parse compilation database JSON: ", e.as_str())),
        ),
        Ok(v) => match v.as_list() {
            None => Err(ToolError::invalid(owned("compilation database must be a JSON array"))),
            Some(entries) => compile_database_entries(entries, default_directory),
        },
    }
}

// ---------------------------------------------------------------------------
// What holds of what was probed
// ---------------------------------------------------------------------------

/// A probe parsed exactly where the run ended with success; each other outcome names its cause.
pub proof fn law_a_probe_names_what_went_wrong(
    program: Seq<char>,
    file: Seq<char>,
    headers: Seq<Option<Seq<char>>>,
    output: String,
    error: String,
    seconds: u64,
)
    ensures
        probe_result(program, file, ProbeRun::Ended { success: true, output }, headers)
            == ProbeView::Parsed,
        probe_result(program, file, ProbeRun::Ended { success: false, output }, headers) is Blocked,
        ({
            let missing = probe_result(program, file, ProbeRun::NotAFile, headers);
            &&& missing is Blocked
            &&& missing->Blocked_0.cause == "missing_file"@
            &&& missing->Blocked_0.message == file + " is not a file"@
        }),
        ({
            let failed = probe_result(program, file, ProbeRun::NotStarted { error }, headers);
            &&& failed is Blocked
            &&& failed->Blocked_0.cause == "probe_failed"@
            &&& failed->Blocked_0.message == "could not run "@ + program + ": "@ + error@
        }),
        ({
            let late = probe_result(program, file, ProbeRun::TimedOut { seconds }, headers);
            &&& late is Blocked
            &&& late->Blocked_0.cause == "timeout"@
            &&& late->Blocked_0.message == "the parse did not finish in "@ + decimal(
                seconds as nat,
            ) + "s"@
        }),
{
}

proof fn lemma_first_block(ls: Seq<Seq<char>>, headers: Seq<Option<Seq<char>>>, i: int, k: int)
    requires
        0 <= i <= k < ls.len(),
        line_block(ls[k], header_at(headers, k)) is Some,
        forall|j: int| i <= j < k ==> line_block(#[trigger] ls[j], header_at(headers, j)) is None,
    ensures
        first_block(ls, headers, i) == line_block(ls[k], header_at(headers, k)),
    decreases k - i,
{
    if i < k {
        assert(line_block(ls[i], header_at(headers, i)) is None);
        lemma_first_block(ls, headers, i + 1, k);
    }
}

proof fn lemma_no_block(ls: Seq<Seq<char>>, headers: Seq<Option<Seq<char>>>, i: int)
    requires
        0 <= i,
        forall|j: int|
            i <= j < ls.len() ==> line_block(#[trigger] ls[j], header_at(headers, j)) is None,
    ensures
        first_block(ls, headers, i) is None,
    decreases ls.len() - i,
{
    if i < ls.len() {
        assert(line_block(ls[i], header_at(headers, i)) is None);
        lemma_no_block(ls, headers, i + 1);
    }
}

proof fn lemma_first_error(ls: Seq<Seq<char>>, i: int, k: int)
    requires
        0 <= i <= k < ls.len(),
        error_line(ls[k]),
        forall|j: int| i <= j < k ==> !error_line(#[trigger] ls[j]),
    ensures
        first_error(ls, i) == trim_spec(ls[k]),
    decreases k - i,
{
    if i < k {
        assert(!error_line(ls[i]));
        lemma_first_error(ls, i + 1, k);
    }
}

/// A failed parse is put down to the first line that tells a cause: a header that was not found, or
/// a name that cannot be resolved; where no line tells one, the first line with an error speaks for
/// it.
pub proof fn law_the_first_telling_line_is_the_cause(
    ls: Seq<Seq<char>>,
    headers: Seq<Option<Seq<char>>>,
    k: int,
    header: Seq<char>,
    name: Seq<char>,
)
    requires
        0 <= k < ls.len(),
        headers.len() == ls.len(),
        forall|j: int| 0 <= j < k ==> unresolved(#[trigger] ls[j]) is None && headers[j] is None,
    ensures
        headers[k] == Some(header) ==> parse_block(ls, headers) == (BlockView {
            cause: "header_not_found"@,
            subject: Some(header),
            message: trim_spec(ls[k]),
        }),
        headers[k] is None && unresolved(ls[k]) == Some(name) ==> parse_block(ls, headers) == (
        BlockView {
            cause: "undeclared_name"@,
            subject: Some(name),
            message: trim_spec(ls[k]),
        }),
        (forall|j: int| 0 <= j < ls.len() ==> unresolved(#[trigger] ls[j]) is None
            && headers[j] is None) && error_line(ls[k]) && (forall|j: int|
            0 <= j < k ==> !error_line(#[trigger] ls[j])) ==> parse_block(ls, headers) == (
        BlockView {
            cause: "other"@,
            subject: None,
            message: trim_spec(ls[k]),
        }),
{
    assert forall|j: int| 0 <= j < k implies line_block(#[trigger] ls[j], header_at(headers, j)) is
        None by {
        assert(unresolved(ls[j]) is None && headers[j] is None);
    }
    if headers[k] is Some || unresolved(ls[k]) is Some {
        lemma_first_block(ls, headers, 0, k);
    }
    if (forall|j: int| 0 <= j < ls.len() ==> unresolved(#[trigger] ls[j]) is None
        && headers[j] is None) && error_line(ls[k]) && (forall|j: int|
        0 <= j < k ==> !error_line(#[trigger] ls[j])) {
        assert forall|j: int| 0 <= j < ls.len() implies line_block(
            #[trigger] ls[j],
            header_at(headers, j),
        ) is None by {
            assert(unresolved(ls[j]) is None && headers[j] is None);
        }
        lemma_no_block(ls, headers, 0);
        lemma_first_error(ls, 0, k);
    }
}

/// A line that speaks of an error, in any case, is one with an error.
pub proof fn law_lines_with_errors(line: Seq<char>)
    ensures
        occurs(ascii_lower(line), "user error"@) ==> error_line(line),
        occurs(ascii_lower(line), "error:"@) ==> error_line(line),
        error_line(line) ==> occurs(ascii_lower(line), "error"@),
{
    reveal_strlit("user error");
    reveal_strlit("error:");
    reveal_strlit("error");
    let t = ascii_lower(line);
    if occurs(t, "user error"@) {
        let i = choose|i: int| crate::text::stands_at(t, "user error"@, i);
        assert forall|j: int| 0 <= j < 5 implies t.subrange(i + 5, i + 10)[j] == "error"@[j] by {
            assert(t.subrange(i, i + 10)[j + 5] == "user error"@[j + 5]);
        }
        assert(t.subrange(i + 5, i + 10) =~= "error"@);
        assert(crate::text::stands_at(t, "error"@, i + 5));
    }
    if occurs(t, "error:"@) {
        let i = choose|i: int| crate::text::stands_at(t, "error:"@, i);
        assert forall|j: int| 0 <= j < 5 implies t.subrange(i, i + 5)[j] == "error"@[j] by {
            assert(t.subrange(i, i + 6)[j] == "error:"@[j]);
        }
        assert(t.subrange(i, i + 5) =~= "error"@);
        assert(crate::text::stands_at(t, "error"@, i));
    }
}

proof fn lemma_name_end(name: Seq<char>, rest: Seq<char>, i: int)
    requires
        0 <= i <= name.len(),
        forall|j: int| 0 <= j < name.len() ==> name_char(#[trigger] name[j]),
        rest.len() == 0 || !name_char(rest[0]),
    ensures
        name_end(name + rest, i) == name.len(),
    decreases name.len() - i,
{
    if i < name.len() {
        assert((name + rest)[i] == name[i]);
        lemma_name_end(name, rest, i + 1);
    } else if rest.len() > 0 {
        assert((name + rest)[i] == rest[0]);
    }
}

/// A name that cannot be resolved is read off the line whole, up to the first character that cannot
/// stand in a name.
pub proof fn law_an_unresolved_name_is_read_whole(
    before: Seq<char>,
    name: Seq<char>,
    rest: Seq<char>,
)
    requires
        !before.contains('C'),
        name.len() > 0,
        forall|j: int| 0 <= j < name.len() ==> name_char(#[trigger] name[j]),
        rest.len() == 0 || !name_char(rest[0]),
    ensures
        unresolved(before + "Cannot resolve variable "@ + (name + rest)) == Some(name),
{
    reveal_strlit("Cannot resolve variable ");
    assert("Cannot resolve variable "@[0] == 'C');
    crate::text::law_split_at_the_mark(before, "Cannot resolve variable "@, name + rest);
    lemma_name_end(name, rest, 0);
    assert((name + rest).subrange(0, name.len() as int) =~= name);
}

/// The options of a probe are those of the request, each under its own name.
pub proof fn law_a_probe_has_the_options_of_the_request(p: ParseSurfaceParams)
    ensures
        p.include_paths is Some ==> surface_options(p).include_paths == texts(p.include_paths->0@),
        p.isystem_paths is Some ==> surface_options(p).isystem_paths == texts(p.isystem_paths->0@),
        p.defines is Some ==> surface_options(p).defines == texts(p.defines->0@),
        p.force_includes is Some ==> surface_options(p).force_includes == texts(
            p.force_includes->0@,
        ),
        p.machdep is Some ==> surface_options(p).machdep == Some(p.machdep->0@),
        p.nostdinc == Some(true) ==> surface_options(p).nostdinc,
        p.nostdinc is None ==> !surface_options(p).nostdinc,
        p.include_paths is None ==> surface_options(p).include_paths.len() == 0,
{
}

/// One more file with a cause that is known adds one to its group and leaves the example; one with
/// a new cause opens a group with itself as the example; a file that parsed changes no group.
pub proof fn law_a_blocked_file_joins_its_group(
    probed: Seq<(Seq<char>, ProbeView)>,
    file: Seq<char>,
    b: BlockView,
    k: int,
)
    ensures
        groups(probed.push((file, ProbeView::Parsed))) == groups(probed),
        parsed_count(probed.push((file, ProbeView::Parsed))) == parsed_count(probed) + 1,
        parsed_count(probed.push((file, ProbeView::Blocked(b)))) == parsed_count(probed),
        0 <= k < groups(probed).len() && groups(probed)[k].cause == b.cause && groups(
            probed,
        )[k].subject == subject_of(b) ==> groups(probed.push((file, ProbeView::Blocked(b)))).len()
            == groups(probed).len(),
        (forall|j: int|
            0 <= j < groups(probed).len() ==> !((#[trigger] groups(probed)[j]).cause == b.cause
                && groups(probed)[j].subject == subject_of(b))) ==> groups(
            probed.push((file, ProbeView::Blocked(b))),
        ) == groups(probed).push(
            GroupView { cause: b.cause, subject: subject_of(b), files: 1, example: file },
        ),
{
    assert(probed.push((file, ProbeView::Parsed)).drop_last() =~= probed);
    assert(probed.push((file, ProbeView::Blocked(b))).drop_last() =~= probed);
    lemma_group_at(groups(probed), b.cause, subject_of(b));
}

/// What is told of a group is its cause, its subject, the number of its files and an example; of a
/// file whether it parses and, where not, why.
pub proof fn law_groups_and_files_are_told(g: GroupView, file: Seq<char>, b: BlockView)
    ensures
        group_json(g).text("cause"@) == Some(g.cause),
        g.subject.len() > 0 ==> group_json(g).text("subject"@) == Some(g.subject),
        g.subject.len() == 0 ==> group_json(g).get("subject"@) == Some(JsonView::Null),
        group_json(g).get("files"@) == Some(JsonView::num(g.files)),
        group_json(g).text("example"@) == Some(g.example),
        file_json((file, ProbeView::Parsed)).text("file"@) == Some(file),
        file_json((file, ProbeView::Parsed)).flag("parses"@) == Some(true),
        ({
            let f = file_json((file, ProbeView::Blocked(b)));
            &&& f.text("file"@) == Some(file)
            &&& f.flag("parses"@) == Some(false)
            &&& f.text("cause"@) == Some(b.cause)
            &&& f.get("subject"@) == Some(JsonView::opt_text(b.subject))
            &&& f.text("message"@) == Some(b.message)
        }),
{
    broadcast use crate::json::group_object_reads;

    reveal_strlit("cause");
    reveal_strlit("subject");
    reveal_strlit("files");
    reveal_strlit("example");
    reveal_strlit("file");
    reveal_strlit("parses");
    reveal_strlit("message");
    assert("cause"@.len() == 5 && "subject"@.len() == 7);
    assert("files"@.len() == 5 && "example"@.len() == 7);
    assert("file"@.len() == 4 && "parses"@.len() == 6);
    assert("message"@.len() == 7);
    assert("cause"@[0] != "files"@[0]);
    assert("subject"@[0] != "example"@[0]);
    assert("subject"@[0] != "message"@[0]);
    assert("example"@[0] != "message"@[0]);
}

/// The largest group decides what is advised: a header and a name are named, each with its own
/// advice; where nothing is blocked there is nothing to do.
pub proof fn law_the_largest_group_decides_the_advice(gs: Seq<GroupView>)
    ensures
        ({
            let g = gs[0];
            let told = next_action(gs).text("reason"@);
            let count = decimal(g.files as nat);
            &&& gs.len() == 0 ==> told == Some("Every file parsed under these flags."@)
                && next_action(gs).text("confidence"@) == Some("high"@)
            &&& gs.len() > 0 ==> next_action(gs).text("confidence"@) == Some("medium"@)
                && next_action(gs).get("blockers"@) == Some(
                JsonView::Array(seq![JsonView::Str(g.cause)]),
            )
            &&& gs.len() > 0 && g.cause == "header_not_found"@ ==> told == Some(
                g.subject + " was not found on the include path and blocks "@ + count
                    + " of these files. Two different things look like this. If it belongs to this project, the include path is short an entry and no stub is called for. If it is a system header Frama-C's libc does not model, writing one that declares only what this tree calls does not model it either: the analysis would reason about bodies that do not exist, and a proof resting on that is worth less than no proof. Check which it is before writing anything."@,
            )
            &&& gs.len() > 0 && g.cause == "undeclared_name"@ ==> told == Some(
                g.subject + " is declared nowhere the analyzer can see and blocks "@ + count
                    + " of these files. This is the case a stub answers honestly: declare it as the platform declares it, with the same type."@,
            )
            &&& gs.len() > 0 && g.cause == "timeout"@ ==> told == Some(count + " of these files did not finish parsing. That is a front end problem rather than a missing declaration; read one of them directly."@)
            &&& gs.len() > 0 && g.cause == "missing_file"@ ==> told == Some(count + " of these paths are not files. Nothing was measured for them, so they are not evidence either way about what parses; check how the list was built."@)
            &&& gs.len() > 0 && g.cause == "other"@ ==> told == Some(
                "The largest group is "@ + g.cause + ", blocking "@ + count + " of these files. Its message is in the per-file list, which detail: \"full\" returns; read it before deciding what it is."@,
            )
        }),
{
    broadcast use crate::json::group_object_reads;

    reveal_strlit("tool");
    reveal_strlit("args");
    reveal_strlit("reason");
    reveal_strlit("blockers");
    reveal_strlit("confidence");
    assert("tool"@.len() == 4 && "args"@.len() == 4);
    assert("reason"@.len() == 6 && "blockers"@.len() == 8);
    assert("confidence"@.len() == 10);
    assert("tool"@[0] != "args"@[0]);
    reveal_strlit("header_not_found");
    reveal_strlit("undeclared_name");
    reveal_strlit("timeout");
    reveal_strlit("missing_file");
    reveal_strlit("other");
    assert("header_not_found"@.len() == 16 && "undeclared_name"@.len() == 15);
    assert("timeout"@.len() == 7 && "missing_file"@.len() == 12);
    assert("other"@.len() == 5);
}

/// What was measured is counted: all files, those that parsed and those that did not.
pub proof fn law_what_was_measured_is_counted(probed: Seq<(Seq<char>, ProbeView)>, full: bool, i: int)
    ensures
        ({
            let s = surface(probed, full);
            &&& s.get("files_total"@) == Some(JsonView::num(probed.len() as int))
            &&& s.get("files_parsed"@) == Some(JsonView::num(parsed_count(probed)))
            &&& s.get("files_blocked"@) == Some(
                JsonView::num(total_files(groups(probed))),
            )
            &&& s.get("next_action"@) == Some(next_action(ranked(probed)))
            &&& s.list("blocked_by"@) is Some && s.list("blocked_by"@)->0.len() == groups(
                probed,
            ).len()
            &&& full ==> s.list("files"@) is Some && s.list("files"@)->0.len() == probed.len()
            &&& full && 0 <= i < probed.len() ==> s.list("files"@)->0[i] == file_json(probed[i])
            &&& !full ==> s.get("files"@) is None
        }),
{
    broadcast use crate::json::group_object_reads;

    reveal_strlit("files_total");
    reveal_strlit("files_parsed");
    reveal_strlit("files_blocked");
    reveal_strlit("blocked_by");
    reveal_strlit("next_action");
    reveal_strlit("files");
    assert("files_total"@.len() == 11 && "files_parsed"@.len() == 12);
    assert("files_blocked"@.len() == 13 && "blocked_by"@.len() == 10);
    assert("next_action"@.len() == 11 && "files"@.len() == 5);
    assert("files_total"@[0] != "next_action"@[0]);
    law_every_file_is_counted_once(probed);
    law_causes_are_ranked(probed);
}

/// A file of a compilation database stands where it says, below the directory of its entry, or below
/// that of the database where the entry names none.
pub proof fn law_a_file_stands_where_its_entry_says(
    entry: JsonView,
    file: Seq<char>,
    directory: Seq<char>,
    default_directory: Seq<char>,
)
    ensures
        entry.text("file"@) == Some(file) && absolute(file) ==> entry_file(entry, default_directory)
            == Some(file),
        entry.text("file"@) == Some(file) && !absolute(file) && entry.text("directory"@) == Some(
            directory,
        ) ==> entry_file(entry, default_directory) == Some(joined(directory, file)),
        entry.text("file"@) == Some(file) && !absolute(file) && entry.text("directory"@) is None
            ==> entry_file(entry, default_directory) == Some(joined(default_directory, file)),
        entry.text("file"@) is None ==> entry_file(entry, default_directory) is None,
{
}

/// A file is probed alone, without plugins, behind the options of the project.
pub proof fn law_a_file_is_probed_alone(args: Seq<Seq<char>>, file: Seq<char>, i: int)
    ensures
        probe_args(args, file).len() == args.len() + 2,
        0 <= i < args.len() ==> probe_args(args, file)[i] == args[i],
        probe_args(args, file)[args.len() as int] == "-no-autoload-plugins"@,
        probe_args(args, file).last() == file,
{
}

/// The files of a database are those its entries name, each once; what is no list, names no files,
/// or has an entry without one is refused.
pub proof fn law_a_database_names_its_files(
    t: Seq<char>,
    directory: Seq<char>,
    entries: Seq<JsonView>,
    v: JsonView,
    i: int,
)
    ensures
        json_parse(t) is None ==> database_files(t, directory) is Err,
        json_parse(t) == Some(v) && !(v is Array) ==> database_files(t, directory) == Err::<
            Seq<Seq<char>>,
            Seq<char>,
        >("compilation database must be a JSON array"@),
        json_parse(t) == Some(JsonView::Array(Seq::empty())) ==> database_files(t, directory)
            == Err::<Seq<Seq<char>>, Seq<char>>("compilation database contains no files"@),
        json_parse(t) == Some(JsonView::Array(entries)) && 0 <= i < entries.len() && entries[i].text(
            "file"@,
        ) is None ==> database_files(t, directory) == Err::<Seq<Seq<char>>, Seq<char>>(
            "compilation database entry is missing file"@,
        ),
        json_parse(t) == Some(JsonView::Array(entries)) && 0 <= i < entries.len() && (forall|j: int|
            0 <= j < entries.len() ==> (#[trigger] entries[j]).text("file"@) is Some) ==> {
            &&& database_files(t, directory) is Ok
            &&& database_files(t, directory)->Ok_0.contains(entry_file(entries[i], directory)->0)
        },
{
    if json_parse(t) == Some(JsonView::Array(entries)) && 0 <= i < entries.len() && (forall|j: int|
        0 <= j < entries.len() ==> (#[trigger] entries[j]).text("file"@) is Some) {
        let all = entry_files(entries, directory);
        assert(all[i] == entry_file(entries[i], directory)->0);
        assert(all.contains(all[i]));
        crate::order::law_distinct(all);
    }
}

} // verus!
