//! Where state is kept on disk, and what a caller is allowed to name.

use crate::error::{ToolError, ToolErrorView};
use crate::json::{collected, lemma_take_next, models, opt_value, Json, JsonView};
use crate::order::{lemma_place_is, lt, sort_by, text_lt};
use crate::outside::{debug_quoted, debug_text, json_pretty};
use crate::paths::{
    are_parts, below, components, is_below, is_name, join_path, joined,
    law_a_name_leads_one_step_down, law_parts_are_read_back,
    names_of, normalize, normalized, path_components, path_from, path_text,
};
use crate::receipt::{receipt_shape, schema_of, RECEIPT_SCHEMA};
use crate::sandbox::{records, FunctionVerificationState, SandboxMetadata, SandboxView};
use crate::session::{
    conclusion_status_name, parse_conclusion_status, status_complaint, status_word,
    VerificationStatus,
};
use crate::stable::{prefix, prefix_text, sha256_hex, sha256_hex_of};
use crate::text::{
    ascii_alnum, begins, cat2, cat3, cat4, chars_of, decimal, decimal_text, is_ascii_alnum,
    lemma_pieces_are_plain, opt_string, opt_text, owned, pieces, same, starts_with, texts,
};
use vstd::prelude::*;
use vstd::utf8::*;

verus! {

// ---------------------------------------------------------------------------
// What a caller is allowed to name
// ---------------------------------------------------------------------------

/// Whether a character may stand in the name of a directory.
pub open spec fn is_segment_char(c: char) -> bool {
    is_ascii_alnum(c) || c == '_' || c == '-'
}

/// Whether a text can be one segment of a path.
pub open spec fn safe_segment(value: Seq<char>) -> bool {
    0 < value.len() <= 128 && forall|i: int|
        0 <= i < value.len() ==> is_segment_char(#[trigger] value[i])
}

/// Whether a text can be one segment of a path. Names of functions and of experiments become
/// directories, so what could leave its parent is not accepted. No dot is, which rules out `..`.
pub fn is_safe_path_segment(value: &str) -> (r: bool)
    ensures
        r == safe_segment(value@),
{
    let cs = chars_of(value);
    if cs.len() == 0 || cs.len() > 128 {
        return false;
    }
    let mut i: usize = 0;
    while i < cs.len()
        invariant
            i <= cs@.len(),
            cs@ == value@,
            forall|k: int| 0 <= k < i ==> is_segment_char(#[trigger] cs@[k]),
        decreases cs@.len() - i,
    {
        if !(ascii_alnum(cs[i]) || cs[i] == '_' || cs[i] == '-') {
            assert(!is_segment_char(value@[i as int]));
            return false;
        }
        i = i + 1;
    }
    true
}

/// What is said of a text that cannot be one segment of a path.
pub open spec fn unsafe_segment(value: Seq<char>, field: Seq<char>) -> ToolErrorView {
    ToolErrorView::invalid_with(
        field + " must be 1-128 characters of [A-Za-z0-9_-]; it becomes a directory name"@,
        JsonView::object().with("kind"@, JsonView::Str("UnsafePathSegment"@)).with(
            "field"@,
            JsonView::Str(field),
        ).with("value"@, JsonView::Str(value)),
    )
}

/// Accepts a text that can be one segment of a path.
pub fn require_safe_path_segment(value: &str, field: &str) -> (r: Result<(), ToolError>)
    ensures
        match r {
            Ok(()) => safe_segment(value@),
            Err(e) => !safe_segment(value@) && e@ == unsafe_segment(value@, field@),
        },
{
    if is_safe_path_segment(value) {
        return Ok(());
    }
    let message = cat2(
        field,
        " must be 1-128 characters of [A-Za-z0-9_-]; it becomes a directory name",
    );
    let data = Json::object().with("kind", Json::str("UnsafePathSegment")).with(
        "field",
        Json::str(field),
    ).with("value", Json::str(value));
    Err(ToolError::invalid_with(message, data))
}

/// A segment that is accepted leads one step down from any directory: it holds no separator, and
/// is neither the directory itself nor the one above.
pub proof fn law_a_safe_segment_stays_below(base: Seq<char>, value: Seq<char>)
    requires
        safe_segment(value),
    ensures
        is_name(value),
        value != ".."@,
        !value.contains('.'),
        components(joined(base, value)) == components(base).push(value),
{
    reveal_strlit(".");
    reveal_strlit("..");
    assert(is_segment_char(value[0]));
    assert("."@[0] == '.' && ".."@[0] == '.');
    assert(!value.contains('/')) by {
        if value.contains('/') {
            let i = choose|i: int| 0 <= i < value.len() && value[i] == '/';
            assert(is_segment_char(value[i]));
        }
    }
    assert(!value.contains('.')) by {
        if value.contains('.') {
            let i = choose|i: int| 0 <= i < value.len() && value[i] == '.';
            assert(is_segment_char(value[i]));
        }
    }
    law_a_name_leads_one_step_down(base, value);
}

// ---------------------------------------------------------------------------
// Where output may be written
// ---------------------------------------------------------------------------

/// What is known of the deepest directory on a path that exists.
pub enum Ancestor {
    /// There is none.
    Missing,
    /// Where it really is could not be found out.
    Unresolved { path: String, error: String },
    /// Where it really is.
    Real(String),
}

/// The parts of the path that a caller means, by its text alone, or why it is refused.
pub open spec fn lexical_output(real_root: Seq<char>, path: Seq<char>) -> Result<
    Seq<Seq<char>>,
    Seq<char>,
> {
    match normalized(components(joined(real_root, path))) {
        None => Err("path climbs above the filesystem root"@),
        Some(parts) => if is_below(parts, components(real_root)) {
            Ok(parts)
        } else {
            Err("resolved outside it"@)
        },
    }
}

/// The path that a caller means, or why it is refused.
pub open spec fn output_path(real_root: Seq<char>, path: Seq<char>, ancestor: Ancestor) -> Result<
    Seq<char>,
    Seq<char>,
> {
    match lexical_output(real_root, path) {
        Err(e) => Err(e),
        Ok(parts) => match ancestor {
            Ancestor::Missing => Err("no existing ancestor to check"@),
            Ancestor::Unresolved { path, error } => Err(
                "cannot resolve "@ + path@ + ": "@ + error@,
            ),
            Ancestor::Real(there) => if is_below(components(there@), components(real_root)) {
                Ok(path_text(parts))
            } else {
                Err("a symlink on the path leaves the working directory"@)
            },
        },
    }
}

/// What is said of a path that is refused.
pub open spec fn refused(path: Seq<char>, reason: Seq<char>) -> ToolErrorView {
    ToolErrorView::invalid_with(
        "output must stay inside the working directory: "@ + reason,
        JsonView::object().with(
            "kind"@,
            JsonView::Str("OutputPathOutsideWorkingDirectory"@),
        ).with("output"@, JsonView::Str(path)).with("reason"@, JsonView::Str(reason)),
    )
}

fn refuse(path: &str, reason: &str) -> (r: ToolError)
    ensures
        r@ == refused(path@, reason@),
{
    ToolError::invalid_with(
        cat2("output must stay inside the working directory: ", reason),
        Json::object().with("kind", Json::str("OutputPathOutsideWorkingDirectory")).with(
            "output",
            Json::str(path),
        ).with("reason", Json::str(reason)),
    )
}

/// The path that a caller means, by its text alone. A path of which nothing exists yet has one
/// too.
pub fn lexical_output_path(real_root: &str, path: &str) -> (r: Result<String, ToolError>)
    ensures
        match (r, lexical_output(real_root@, path@)) {
            (Ok(t), Ok(parts)) => t@ == path_text(parts),
            (Err(e), Err(reason)) => e@ == refused(path@, reason),
            _ => false,
        },
{
    let whole = join_path(real_root, path);
    let parts = path_components(whole.as_str());
    match normalize(&parts) {
        None => Err(refuse(path, "path climbs above the filesystem root")),
        Some(parts) => if below(&parts, &path_components(real_root)) {
            Ok(path_from(&parts))
        } else {
            Err(refuse(path, "resolved outside it"))
        },
    }
}

/// The path that a caller means, below a directory. Its text must stay there, and so must what
/// exists of it, because a link on the way can lead out.
pub fn resolve_output_path_in(real_root: &str, path: &str, ancestor: &Ancestor) -> (r: Result<
    String,
    ToolError,
>)
    ensures
        match (r, output_path(real_root@, path@, *ancestor)) {
            (Ok(t), Ok(p)) => t@ == p,
            (Err(e), Err(reason)) => e@ == refused(path@, reason),
            _ => false,
        },
{
    let text = lexical_output_path(real_root, path)?;
    match ancestor {
        Ancestor::Missing => Err(refuse(path, "no existing ancestor to check")),
        Ancestor::Unresolved { path: at, error } => {
            let reason = cat4("cannot resolve ", at.as_str(), ": ", error.as_str());
            Err(refuse(path, reason.as_str()))
        },
        Ancestor::Real(there) => if below(
            &path_components(there.as_str()),
            &path_components(real_root),
        ) {
            Ok(text)
        } else {
            Err(refuse(path, "a symlink on the path leaves the working directory"))
        },
    }
}

/// What is said where the working directory cannot be read.
pub open spec fn no_working_directory(error: Seq<char>) -> ToolErrorView {
    ToolErrorView::invalid(
        "output must stay inside the working directory: cannot read it: "@ + error,
    )
}

/// The path that a caller means, below the working directory, where that can be read.
pub fn resolve_output_path(cwd: &Result<String, String>, path: &str, ancestor: &Ancestor) -> (r: Result<
    String,
    ToolError,
>)
    ensures
        match cwd {
            Err(error) => r matches Err(e) && e@ == no_working_directory(error@),
            Ok(root) => match (r, output_path(root@, path@, *ancestor)) {
                (Ok(t), Ok(p)) => t@ == p,
                (Err(e), Err(reason)) => e@ == refused(path@, reason),
                _ => false,
            },
        },
{
    match cwd {
        Err(error) => Err(
            ToolError::invalid(
                cat2(
                    "output must stay inside the working directory: cannot read it: ",
                    error.as_str(),
                ),
            ),
        ),
        Ok(root) => resolve_output_path_in(root.as_str(), path, ancestor),
    }
}

proof fn lemma_names_are_plain(parts: Seq<Seq<char>>, i: int)
    requires
        forall|k: int| 0 <= k < parts.len() ==> !(#[trigger] parts[k]).contains('/'),
        0 <= i < names_of(parts).len(),
    ensures
        is_name(names_of(parts)[i]),
    decreases parts.len(),
{
    let t = parts.drop_last();
    assert forall|k: int| 0 <= k < t.len() implies !(#[trigger] t[k]).contains('/') by {
        assert(t[k] == parts[k]);
    }
    if i < names_of(t).len() {
        lemma_names_are_plain(t, i);
    } else {
        assert(!parts[parts.len() - 1].contains('/'));
    }
}

proof fn lemma_components(path: Seq<char>, i: int)
    requires
        0 <= i < components(path).len(),
    ensures
        is_name(components(path)[i]) || components(path)[i] == "."@ || (i == 0 && components(
            path,
        )[i] == "/"@),
{
    let ps = pieces(path, '/');
    assert forall|k: int| 0 <= k < ps.len() implies !(#[trigger] ps[k]).contains('/') by {
        lemma_pieces_are_plain(path, '/', 0, k);
    }
    let n = components(path).len() - names_of(ps).len();
    if i >= n {
        lemma_names_are_plain(ps, i - n);
    }
}

proof fn lemma_normalized_parts(parts: Seq<Seq<char>>)
    requires
        forall|i: int|
            0 <= i < parts.len() ==> is_name(#[trigger] parts[i]) || parts[i] == "."@ || (i == 0
                && parts[i] == "/"@),
        normalized(parts) is Some,
    ensures
        are_parts(normalized(parts)->0),
        forall|i: int| 0 <= i < normalized(parts)->0.len() ==> #[trigger] normalized(parts)->0[i] != ".."@,
        normalized(parts)->0.len() <= parts.len(),
    decreases parts.len(),
{
    reveal_strlit("/");
    reveal_strlit(".");
    if parts.len() > 0 {
        let t = parts.drop_last();
        assert forall|i: int| 0 <= i < t.len() implies is_name(#[trigger] t[i]) || t[i] == "."@ || (i
            == 0 && t[i] == "/"@) by {
            assert(t[i] == parts[i]);
        }
        lemma_normalized_parts(t);
        let s = normalized(t)->0;
        let r = normalized(parts)->0;
        let x = parts.last();
        assert(parts[parts.len() - 1] == x);
        assert forall|i: int| 0 <= i < r.len() implies (is_name(#[trigger] r[i]) || (i == 0 && r[i]
            == "/"@)) && r[i] != ".."@ by {
            if i < s.len() {
                assert(r[i] == s[i]);
            } else {
                assert(r[i] == x);
                if x == "/"@ {
                    assert(x[0] == '/' && "."@[0] == '.');
                    assert(x.contains('/'));
                    assert(parts.len() == 1);
                }
            }
        }
    }
}

/// What may be written lies below the root: its parts begin with those of the root, and none of
/// them leads up again. And what exists of it lies there too.
pub proof fn law_output_stays_below_the_root(
    real_root: Seq<char>,
    path: Seq<char>,
    ancestor: Ancestor,
)
    requires
        output_path(real_root, path, ancestor) is Ok,
    ensures
        is_below(
            components(output_path(real_root, path, ancestor)->Ok_0),
            components(real_root),
        ),
        !components(output_path(real_root, path, ancestor)->Ok_0).contains(".."@),
        ancestor matches Ancestor::Real(there) && is_below(
            components(there@),
            components(real_root),
        ),
{
    let whole = components(joined(real_root, path));
    let parts = normalized(whole)->0;
    assert forall|i: int| 0 <= i < whole.len() implies is_name(#[trigger] whole[i]) || whole[i]
        == "."@ || (i == 0 && whole[i] == "/"@) by {
        lemma_components(joined(real_root, path), i);
    }
    lemma_normalized_parts(whole);
    law_parts_are_read_back(parts);
}

// ---------------------------------------------------------------------------
// Conclusions
// ---------------------------------------------------------------------------

/// Where state is kept: a directory of the caller's choice, or one in the working directory.
pub open spec fn base_dir(state_dir: Option<Seq<char>>) -> Seq<char> {
    match state_dir {
        Some(d) => d,
        None => ".frama-c-mcp"@,
    }
}

/// Where state is kept.
pub fn conclusion_base_dir(state_dir: Option<&str>) -> (r: String)
    ensures
        r@ == base_dir(opt_text(state_dir)),
{
    match state_dir {
        Some(d) => owned(d),
        None => owned(".frama-c-mcp"),
    }
}

/// Where the conclusion about a function is kept.
pub fn conclusion_dir(state_dir: Option<&str>, func: &str) -> (r: String)
    ensures
        r@ == joined(base_dir(opt_text(state_dir)), func@),
{
    let base = conclusion_base_dir(state_dir);
    join_path(base.as_str(), func)
}

/// The long texts of a conclusion. They are files of their own, because they are written and
/// edited by hand.
pub struct LongTexts {
    pub semantic_proof: Option<String>,
    pub semiformal_proof: Option<String>,
    pub program_summary: Option<String>,
}

/// A value with the long texts of a conclusion put into it. One of the first two that is missing
/// is shown as empty, the third is left out.
pub open spec fn with_long_texts(base: JsonView, t: LongTexts) -> JsonView {
    let two = base.with(
        "semantic_proof"@,
        JsonView::Str(crate::json::text_or(opt_string(t.semantic_proof), ""@)),
    ).with(
        "semiformal_proof"@,
        JsonView::Str(crate::json::text_or(opt_string(t.semiformal_proof), ""@)),
    );
    match opt_string(t.program_summary) {
        Some(s) => two.with("program_summary"@, JsonView::Str(s)),
        None => two,
    }
}

/// The long texts of a conclusion, alone.
pub open spec fn long_texts(t: LongTexts) -> JsonView {
    with_long_texts(JsonView::object(), t)
}

fn text_or_empty(o: &Option<String>) -> (r: Json)
    ensures
        r@ == JsonView::Str(crate::json::text_or(opt_string(*o), ""@)),
{
    match o {
        Some(s) => Json::str(s.as_str()),
        None => Json::str(""),
    }
}

/// The long texts of a conclusion, as they are shown.
pub fn read_long_texts_as_json(t: &LongTexts) -> (r: Json)
    ensures
        r@ == long_texts(*t),
{
    full_conclusion(Json::object(), t)
}

/// A conclusion as it was kept, with its long texts.
pub fn full_conclusion(meta: Json, t: &LongTexts) -> (r: Json)
    ensures
        r@ == with_long_texts(meta@, *t),
{
    let two = meta.with("semantic_proof", text_or_empty(&t.semantic_proof)).with(
        "semiformal_proof",
        text_or_empty(&t.semiformal_proof),
    );
    match &t.program_summary {
        Some(s) => two.with("program_summary", Json::str(s.as_str())),
        None => two,
    }
}

/// A file to write, and what it holds.
pub struct JsonFile {
    pub path: String,
    pub text: String,
}

/// Whether a file is to be written with a value.
pub open spec fn holds(file: JsonFile, path: Seq<char>, value: JsonView) -> bool {
    file.path@ == path && file.text@ == json_pretty(collected(value))
}

/// Which of the long texts of a conclusion are there as files.
pub struct LongTextFiles {
    pub semantic_proof: bool,
    pub semiformal_proof: bool,
    pub program_summary: bool,
}

/// The files that hold long texts.
pub open spec fn long_text_names(f: LongTextFiles) -> Seq<Seq<char>> {
    (if f.semantic_proof {
        seq!["semantic_proof.md"@]
    } else {
        Seq::empty()
    }) + (if f.semiformal_proof {
        seq!["semiformal_proof.md"@]
    } else {
        Seq::empty()
    }) + (if f.program_summary {
        seq!["program_summary.md"@]
    } else {
        Seq::empty()
    })
}

/// What the record of a conclusion says of the texts that it leaves out.
pub const LONG_TEXT_COMMENT: &'static str =
    "The truth of the long text field is in the following .md file (same directory). To see the complete conclusion please call list with kind=\"conclusions\" and function set (automatically assembled from .md)";

/// The record of a conclusion, with the long texts that there are by name. Those that are not
/// there are not named, because that would read as a broken conclusion.
pub open spec fn meta_of(conclusion: JsonView, files: LongTextFiles) -> JsonView {
    if long_text_names(files).len() == 0 {
        conclusion
    } else {
        conclusion.with(
            "_long_text_files"@,
            JsonView::object().with("_comment"@, JsonView::Str(LONG_TEXT_COMMENT@)).with(
                "files"@,
                JsonView::strings(long_text_names(files)),
            ),
        )
    }
}

/// What is said of a function that cannot be a directory.
pub open spec fn unsafe_function(func: Seq<char>) -> Seq<char> {
    "unsafe function name for a conclusion directory: "@ + debug_quoted(func)
}

fn existing_long_texts(files: &LongTextFiles) -> (r: Vec<String>)
    ensures
        texts(r@) == long_text_names(*files),
{
    let mut out: Vec<String> = Vec::new();
    if files.semantic_proof {
        out.push(owned("semantic_proof.md"));
    }
    if files.semiformal_proof {
        out.push(owned("semiformal_proof.md"));
    }
    if files.program_summary {
        out.push(owned("program_summary.md"));
    }
    assert(texts(out@) =~= long_text_names(*files));
    out
}

/// The file in which a conclusion is kept. Every conclusion goes through here, so that no name
/// gets out of the directory, whatever was tested before.
pub fn persist_conclusion_at(
    base_dir: &str,
    func: &str,
    conclusion: Json,
    files: &LongTextFiles,
) -> (r: Result<JsonFile, String>)
    ensures
        match r {
            Ok(f) => safe_segment(func@) && holds(
                f,
                joined(joined(base_dir@, func@), "meta.json"@),
                meta_of(conclusion@, *files),
            ),
            Err(e) => !safe_segment(func@) && e@ == unsafe_function(func@),
        },
{
    if !is_safe_path_segment(func) {
        let quoted = debug_text(func);
        return Err(
            cat2("unsafe function name for a conclusion directory: ", quoted.as_str()),
        );
    }
    let dir = join_path(base_dir, func);
    let names = existing_long_texts(files);
    assert(texts(names@).len() == names@.len());
    let value = if names.len() == 0 {
        conclusion
    } else {
        conclusion.with(
            "_long_text_files",
            Json::object().with("_comment", Json::str(LONG_TEXT_COMMENT)).with(
                "files",
                Json::strings(&names),
            ),
        )
    };
    Ok(JsonFile { path: join_path(dir.as_str(), "meta.json"), text: value.to_pretty() })
}

/// The file in which a conclusion is kept, where state is kept.
pub fn persist_conclusion(
    state_dir: Option<&str>,
    func: &str,
    conclusion: Json,
    files: &LongTextFiles,
) -> (r: Result<JsonFile, String>)
    ensures
        match r {
            Ok(f) => safe_segment(func@) && holds(
                f,
                joined(joined(base_dir(opt_text(state_dir)), func@), "meta.json"@),
                meta_of(conclusion@, *files),
            ),
            Err(e) => !safe_segment(func@) && e@ == unsafe_function(func@),
        },
{
    let base = conclusion_base_dir(state_dir);
    persist_conclusion_at(base.as_str(), func, conclusion, files)
}

/// The file in which the state of a project is kept.
pub fn persist_program_state_at(base_dir: &str, state: &Json) -> (r: JsonFile)
    ensures
        holds(r, joined(base_dir@, "_program.json"@), state@),
{
    JsonFile { path: join_path(base_dir, "_program.json"), text: state.to_pretty() }
}

/// The file in which the state of a project is kept, where state is kept.
pub fn persist_program_state(state_dir: Option<&str>, state: &Json) -> (r: JsonFile)
    ensures
        holds(r, joined(base_dir(opt_text(state_dir)), "_program.json"@), state@),
{
    let base = conclusion_base_dir(state_dir);
    persist_program_state_at(base.as_str(), state)
}

/// A directory, the working directory where none is named.
pub fn dir_or_cwd(dir: &str) -> (r: String)
    ensures
        r@ == (if dir@.len() == 0 {
            "."@
        } else {
            dir@
        }),
{
    if dir.is_empty() {
        owned(".")
    } else {
        owned(dir)
    }
}

/// What the names of files that are being written begin with.
pub const WRITER_TMP_PREFIX: &'static str = ".frama-c-mcp-write-";

/// After how many seconds a file that is being written counts as left behind.
pub const WRITER_TMP_STALE: u64 = 3600;

/// Whether a file was left behind by a writer that is gone: it is one of ours, and older than any
/// write takes. The age keeps the files of other servers that are writing right now.
pub fn is_writer_debris(name: &str, age_seconds: u64, age_nanos: u32) -> (r: bool)
    ensures
        r == (begins(name@, WRITER_TMP_PREFIX@) && (age_seconds > WRITER_TMP_STALE || (age_seconds
            == WRITER_TMP_STALE && age_nanos > 0))),
        age_seconds < 3600 ==> !r,
        age_seconds > 3600 ==> r == begins(name@, ".frama-c-mcp-write-"@),
{
    starts_with(name, WRITER_TMP_PREFIX) && (age_seconds > WRITER_TMP_STALE || (age_seconds
        == WRITER_TMP_STALE && age_nanos > 0))
}

/// Whether a conclusion rests on a receipt of the shape that receipts have here.
pub open spec fn has_own_receipt(receipt: Option<JsonView>) -> bool {
    match receipt {
        Some(r) => r.text("schema"@) == Some(RECEIPT_SCHEMA@) && crate::receipt::shape(r)
            == crate::receipt::shape(
            crate::receipt::receipt_of(crate::receipt::empty_body(), None),
        ),
        None => false,
    }
}

/// Whether a conclusion that was kept is no longer believed: it is called verified, and rests on
/// no receipt that was written here.
pub open spec fn is_downgraded(c: FunctionVerificationState) -> bool {
    c.status == VerificationStatus::Verified && !has_own_receipt(opt_value(c.proof_receipt))
}

/// What a conclusion is taken back as.
pub open spec fn taken_back(c: FunctionVerificationState, r: FunctionVerificationState) -> bool {
    if is_downgraded(c) {
        r == (FunctionVerificationState {
            status: VerificationStatus::InProgress,
            proof_receipt: None,
            ..c
        })
    } else {
        r == c
    }
}

/// Takes back a conclusion that was kept, and says whether it lost something. What is called
/// verified and rests on a receipt that was not written here is no longer called so. It is not
/// dropped, because the work on it would be lost.
pub fn load_conclusion(c: FunctionVerificationState) -> (r: (FunctionVerificationState, bool))
    ensures
        taken_back(c, r.0),
        r.1 == is_downgraded(c),
{
    if c.status != VerificationStatus::Verified {
        return (c, false);
    }
    let honoured = match &c.proof_receipt {
        Some(receipt) => {
            let schema = match receipt.text("schema") {
                Some(s) => same(s, RECEIPT_SCHEMA),
                None => false,
            };
            schema && same(schema_of(receipt).as_str(), receipt_shape().as_str())
        },
        None => false,
    };
    if honoured {
        (c, false)
    } else {
        (
            FunctionVerificationState {
                status: VerificationStatus::InProgress,
                proof_receipt: None,
                ..c
            },
            true,
        )
    }
}

/// A conclusion that is taken back as verified rests on a receipt of the shape that receipts have
/// here, and taking it back again changes nothing.
pub proof fn law_verified_rests_on_a_receipt(
    c: FunctionVerificationState,
    r: FunctionVerificationState,
    again: FunctionVerificationState,
)
    requires
        taken_back(c, r),
        taken_back(r, again),
    ensures
        r.status == VerificationStatus::Verified ==> has_own_receipt(opt_value(r.proof_receipt)),
        again == r,
        r.sandbox_clean == c.sandbox_clean,
        r.annotation_count == c.annotation_count,
        r.wp_summary == c.wp_summary,
{
}

/// Whether a directory that was found can hold a conclusion.
pub open spec fn conclusion_name(name: Option<Seq<char>>) -> bool {
    match name {
        Some(n) => safe_segment(n),
        None => false,
    }
}

/// A directory that was found where conclusions are kept: its name where that is a text, and the
/// conclusion in it where there is one.
pub struct FoundConclusion {
    pub name: Option<String>,
    pub conclusion: Option<FunctionVerificationState>,
}

/// Whether a directory that was found holds a conclusion.
pub open spec fn holds_conclusion(f: FoundConclusion) -> bool {
    conclusion_name(opt_string(f.name)) && f.conclusion is Some
}

/// Which of the directories that were found hold conclusions.
pub open spec fn holding(found: Seq<FoundConclusion>) -> Seq<FoundConclusion>
    decreases found.len(),
{
    if found.len() == 0 {
        Seq::empty()
    } else if holds_conclusion(found.last()) {
        holding(found.drop_last()).push(found.last())
    } else {
        holding(found.drop_last())
    }
}

/// A conclusion that was taken back.
pub struct LoadedConclusion {
    pub name: String,
    pub conclusion: FunctionVerificationState,
    /// Whether it was called verified and no longer is.
    pub downgraded: bool,
}

/// What is taken back out of a directory that holds a conclusion.
#[verifier::opaque]
pub open spec fn loaded_from(f: FoundConclusion, r: LoadedConclusion) -> bool {
    &&& f.name is Some
    &&& f.conclusion is Some
    &&& r.name@ == f.name->0@
    &&& taken_back(f.conclusion->0, r.conclusion)
    &&& r.downgraded == is_downgraded(f.conclusion->0)
}

fn load_found(f: FoundConclusion) -> (r: Option<LoadedConclusion>)
    ensures
        match r {
            Some(c) => holds_conclusion(f) && loaded_from(f, c),
            None => !holds_conclusion(f),
        },
{
    reveal(loaded_from);
    let FoundConclusion { name, conclusion } = f;
    let name = match name {
        Some(n) => n,
        None => {
            return None;
        },
    };
    if !is_safe_path_segment(name.as_str()) {
        return None;
    }
    match conclusion {
        Some(c) => {
            let (conclusion, downgraded) = load_conclusion(c);
            Some(LoadedConclusion { name, conclusion, downgraded })
        },
        None => None,
    }
}

/// The conclusions in the directories that were found, as far as they are taken back. What cannot
/// be one is passed over.
pub fn load_conclusions_from_disk(found: Vec<FoundConclusion>) -> (r: Vec<LoadedConclusion>)
    ensures
        r@.len() == holding(found@).len(),
        forall|i: int| 0 <= i < r@.len() ==> loaded_from(holding(found@)[i], #[trigger] r@[i]),
{
    let ghost all = found@;
    let mut rest = found;
    let mut out: Vec<LoadedConclusion> = Vec::new();
    let ghost mut n: int = 0;
    assert(all.subrange(0, 0) =~= Seq::empty());
    assert(rest@ =~= all.subrange(0, all.len() as int));
    while rest.len() > 0
        invariant
            0 <= n <= all.len(),
            rest@ == all.subrange(n, all.len() as int),
            out@.len() == holding(all.subrange(0, n)).len(),
            forall|i: int|
                0 <= i < out@.len() ==> loaded_from(
                    holding(all.subrange(0, n))[i],
                    #[trigger] out@[i],
                ),
        decreases rest@.len(),
    {
        let f = rest.remove(0);
        proof {
            assert(f == all[n]);
            crate::json::lemma_take_next(all, n);
            assert(rest@ =~= all.subrange(n + 1, all.len() as int));
        }
        match load_found(f) {
            Some(c) => {
                out.push(c);
            },
            None => {},
        }
        proof {
            n = n + 1;
        }
    }
    assert(all.subrange(0, n) =~= all);
    out
}

/// What a list shows of the conclusion about a function.
pub struct ListedConclusion {
    pub function: String,
    pub status: VerificationStatus,
    pub annotation_count: u64,
}

/// A conclusion in a list.
pub open spec fn conclusion_summary(c: ListedConclusion) -> JsonView {
    JsonView::object().with("function"@, JsonView::Str(c.function@)).with(
        "status"@,
        JsonView::Str(status_word(c.status)),
    ).with("annotation_count"@, JsonView::num(c.annotation_count as int))
}

/// Whether a text is the word for a status.
pub open spec fn names_a_status(word: Seq<char>) -> bool {
    exists|status: VerificationStatus| word == #[trigger] status_word(status)
}

/// The conclusions in a list, those with a status alone where one is asked for.
pub open spec fn summaries(
    conclusions: Seq<ListedConclusion>,
    status: Option<Seq<char>>,
) -> Seq<JsonView>
    decreases conclusions.len(),
{
    if conclusions.len() == 0 {
        Seq::empty()
    } else {
        let c = conclusions.last();
        let before = summaries(conclusions.drop_last(), status);
        if status is None || status == Some(status_word(c.status)) {
            before.push(conclusion_summary(c))
        } else {
            before
        }
    }
}

/// The conclusions in a list, in the order they are given in. A text that is no status is refused.
pub fn conclusion_summaries(
    conclusions: &Vec<ListedConclusion>,
    status: Option<&str>,
) -> (r: Result<Json, ToolError>)
    ensures
        match r {
            Ok(v) => {
                &&& status is Some ==> names_a_status(status->0@)
                &&& v@ == JsonView::Array(summaries(conclusions@, opt_text(status)))
            },
            Err(e) => {
                &&& status is Some
                &&& !names_a_status(status->0@)
                &&& e@ == ToolErrorView::invalid(status_complaint(status->0@))
            },
        },
{
    match status {
        Some(word) => match parse_conclusion_status(word) {
            Ok(parsed) => {
                assert(word@ == status_word(parsed));
            },
            Err(complaint) => {
                return Err(ToolError::invalid(complaint));
            },
        },
        None => {},
    }
    let mut out: Vec<Json> = Vec::new();
    let mut i: usize = 0;
    assert(conclusions@.subrange(0, 0) =~= Seq::empty());
    while i < conclusions.len()
        invariant
            i <= conclusions@.len(),
            models(out@) == summaries(conclusions@.subrange(0, i as int), opt_text(status)),
        decreases conclusions@.len() - i,
    {
        let c = &conclusions[i];
        let word = conclusion_status_name(c.status);
        let wanted = match status {
            Some(asked) => same(asked, word),
            None => true,
        };
        proof {
            lemma_take_next(conclusions@, i as int);
        }
        if wanted {
            let one = Json::object().with("function", Json::str(c.function.as_str())).with(
                "status",
                Json::str(word),
            ).with("annotation_count", Json::num(c.annotation_count));
            let ghost before = out@;
            out.push(one);
            assert(models(out@) =~= models(before).push(one@));
        }
        i = i + 1;
    }
    assert(conclusions@.subrange(0, i as int) =~= conclusions@);
    Ok(Json::array(out))
}

/// Every conclusion stands in the list of all, at its place, and in the list of its status.
pub proof fn law_each_conclusion_is_listed_under_its_status(
    conclusions: Seq<ListedConclusion>,
    i: int,
)
    requires
        0 <= i < conclusions.len(),
    ensures
        summaries(conclusions, None).len() == conclusions.len(),
        summaries(conclusions, None)[i] == conclusion_summary(conclusions[i]),
        summaries(conclusions, Some(status_word(conclusions[i].status))).contains(
            conclusion_summary(conclusions[i]),
        ),
    decreases conclusions.len(),
{
    let before = conclusions.drop_last();
    let word = Some(status_word(conclusions[i].status));
    let one = conclusion_summary(conclusions[i]);
    if i < before.len() {
        law_each_conclusion_is_listed_under_its_status(before, i);
        assert(before[i] == conclusions[i]);
        let k = choose|k: int|
            0 <= k < summaries(before, word).len() && summaries(before, word)[k] == one;
        assert(summaries(conclusions, word)[k] == one);
    } else {
        if before.len() > 0 {
            law_each_conclusion_is_listed_under_its_status(before, 0);
        }
        let all = summaries(conclusions, word);
        assert(all[all.len() - 1] == one);
    }
}

/// A list that is asked for by status holds that status alone.
pub proof fn law_a_list_holds_one_status(
    conclusions: Seq<ListedConclusion>,
    word: Seq<char>,
    k: int,
)
    requires
        0 <= k < summaries(conclusions, Some(word)).len(),
    ensures
        exists|i: int|
            0 <= i < conclusions.len() && status_word(conclusions[i].status) == word
                && summaries(conclusions, Some(word))[k] == conclusion_summary(#[trigger] conclusions[i]),
    decreases conclusions.len(),
{
    let before = conclusions.drop_last();
    let kept = summaries(before, Some(word));
    if k < kept.len() {
        law_a_list_holds_one_status(before, word, k);
        let i = choose|i: int|
            0 <= i < before.len() && status_word(before[i].status) == word && kept[k]
                == conclusion_summary(#[trigger] before[i]);
        assert(before[i] == conclusions[i]);
    } else {
        let last = conclusions.len() - 1;
        assert(conclusions[last] == conclusions.last());
    }
}

// ---------------------------------------------------------------------------
// Where sandboxes are
// ---------------------------------------------------------------------------

/// Where state is kept, and for whom.
pub struct StatePlace {
    /// The working directory, or nothing where it cannot be read.
    pub cwd: String,
    pub base_dir: String,
    pub user: u32,
}

/// The directory that everything of one user is kept below, which nobody else may enter.
pub open spec fn private_root(user: int) -> Seq<char> {
    "/tmp/fcmcp-"@ + decimal(user as nat)
}

/// The directory that everything of one user is kept below. It is short, because the path of a
/// socket must be.
pub fn private_root_path(user: u32) -> (r: String)
    ensures
        r@ == private_root(user as int),
{
    let n = decimal_text(user as u64);
    cat2("/tmp/fcmcp-", n.as_str())
}

/// Where state is kept, written in one way only.
pub open spec fn state_path(place: StatePlace) -> Seq<char> {
    path_text(components(joined(place.cwd@, place.base_dir@)))
}

/// The directory of the sandbox of an experiment: it is told apart by where the state is kept that
/// records it, so that two checkouts with the same experiments do not meet.
pub open spec fn sandbox_dir(place: StatePlace, experiment_id: Seq<char>) -> Seq<char> {
    joined(
        private_root(place.user as int),
        "sb-"@ + prefix(sha256_hex_of(encode_utf8(state_path(place))), 8) + "-"@ + experiment_id,
    )
}

/// The directory of the sandbox of an experiment.
pub fn expected_sandbox_dir(place: &StatePlace, experiment_id: &str) -> (r: String)
    ensures
        r@ == sandbox_dir(*place, experiment_id@),
{
    let whole = join_path(place.cwd.as_str(), place.base_dir.as_str());
    let text = path_from(&path_components(whole.as_str()));
    let digest = sha256_hex(text.as_str().as_bytes());
    let owner = prefix_text(digest.as_str(), 8);
    let root = private_root_path(place.user);
    let name = cat4("sb-", owner.as_str(), "-", experiment_id);
    join_path(root.as_str(), name.as_str())
}

/// The file that records sandboxes.
pub fn sandbox_metadata_file(base_dir: &str) -> (r: String)
    ensures
        r@ == joined(base_dir@, "sandboxes.json"@),
{
    join_path(base_dir, "sandboxes.json")
}

/// What was found where a directory is to be.
pub enum DirFound {
    /// Nothing.
    Nothing,
    /// Something.
    Found { is_symlink: bool, is_dir: bool, owner: u32, mode: u32 },
    /// It could not be looked at.
    Failed(String),
}

/// What is done about a directory that nobody else may enter.
pub enum DirStep {
    /// It is there.
    Keep,
    /// It is made, for its owner alone.
    Create,
    /// It is not used.
    Refuse(String),
}

/// Whether others may read, write or enter, by the mode of a directory.
pub open spec fn open_to_others(mode: u32) -> bool {
    mode % 64 != 0
}

/// Why a directory is not used, if it is not.
pub open spec fn dir_complaint(found: DirFound, me: u32) -> Option<Seq<char>> {
    match found {
        DirFound::Found { is_symlink, is_dir, owner, mode } => if is_symlink {
            Some("is a symlink, so it names someone else's directory"@)
        } else if !is_dir {
            Some("exists and is not a directory"@)
        } else if owner != me {
            Some("is owned by another user"@)
        } else if open_to_others(mode) {
            Some("is readable or writable by others"@)
        } else {
            None
        },
        _ => None,
    }
}

/// What is done about a directory that nobody else may enter, by what was found. It is refused and
/// not repaired where it is not right.
pub fn ensure_private_dir(dir: &str, found: &DirFound, me: u32) -> (r: DirStep)
    ensures
        match (r, *found) {
            (DirStep::Keep, DirFound::Found { is_symlink, is_dir, owner, mode }) => dir_complaint(
                *found,
                me,
            ) is None,
            (DirStep::Create, DirFound::Nothing) => true,
            (DirStep::Refuse(e), DirFound::Found { is_symlink, is_dir, owner, mode }) => {
                dir_complaint(*found, me) is Some && e@ == dir@ + " "@ + dir_complaint(*found, me)->0
            },
            (DirStep::Refuse(e), DirFound::Failed(error)) => e@ == error@,
            _ => false,
        },
{
    match found {
        DirFound::Nothing => DirStep::Create,
        DirFound::Failed(error) => DirStep::Refuse(owned(error.as_str())),
        DirFound::Found { is_symlink, is_dir, owner, mode } => {
            let m: u32 = *mode;
            assert(m & 0o077 == m % 64) by (bit_vector);
            if *is_symlink {
                DirStep::Refuse(
                    cat3(dir, " ", "is a symlink, so it names someone else's directory"),
                )
            } else if !*is_dir {
                DirStep::Refuse(cat3(dir, " ", "exists and is not a directory"))
            } else if *owner != me {
                DirStep::Refuse(cat3(dir, " ", "is owned by another user"))
            } else if m & 0o077 != 0 {
                DirStep::Refuse(cat3(dir, " ", "is readable or writable by others"))
            } else {
                DirStep::Keep
            }
        },
    }
}

/// The directory that everything of one user is kept below, and what is done about it.
pub fn ensure_private_root(user: u32, found: &DirFound, me: u32) -> (r: (String, DirStep))
    ensures
        r.0@ == private_root(user as int),
        match (r.1, *found) {
            (DirStep::Keep, DirFound::Found { is_symlink, is_dir, owner, mode }) => dir_complaint(
                *found,
                me,
            ) is None,
            (DirStep::Create, DirFound::Nothing) => true,
            (DirStep::Refuse(e), DirFound::Found { is_symlink, is_dir, owner, mode }) => {
                dir_complaint(*found, me) is Some && e@ == private_root(user as int) + " "@
                    + dir_complaint(*found, me)->0
            },
            (DirStep::Refuse(e), DirFound::Failed(error)) => e@ == error@,
            _ => false,
        },
{
    let root = private_root_path(user);
    let step = ensure_private_dir(root.as_str(), found, me);
    (root, step)
}

// ---------------------------------------------------------------------------
// Records of sandboxes
// ---------------------------------------------------------------------------

/// Whether the paths in the record of a sandbox are those that it has by its experiment.
pub open spec fn paths_expected(place: StatePlace, sandbox: SandboxView) -> bool {
    let dir = sandbox_dir(place, sandbox.experiment_id);
    &&& components(sandbox.sandbox_dir) == components(dir)
    &&& components(sandbox.sandbox_socket) == components(joined(dir, "frama-c.sock"@))
}

fn same_path(a: &str, b: &str) -> (r: bool)
    ensures
        r == (components(a@) == components(b@)),
{
    let p = path_components(a);
    let q = path_components(b);
    assert(texts(p@).len() == p@.len() && texts(q@).len() == q@.len());
    if p.len() != q.len() {
        return false;
    }
    let r = below(&p, &q);
    assert(texts(p@).subrange(0, q@.len() as int) =~= texts(p@));
    r
}

/// Whether the paths in the record of a sandbox are those that it has by its experiment.
pub fn has_expected_sandbox_paths(place: &StatePlace, sandbox: &SandboxMetadata) -> (r: bool)
    ensures
        r == paths_expected(*place, sandbox@),
{
    let dir = expected_sandbox_dir(place, sandbox.experiment_id.as_str());
    let socket = join_path(dir.as_str(), "frama-c.sock");
    same_path(sandbox.sandbox_dir.as_str(), dir.as_str()) && same_path(
        sandbox.sandbox_socket.as_str(),
        socket.as_str(),
    )
}

/// Whether the record of a sandbox is believed.
pub open spec fn believed(place: StatePlace, sandbox: SandboxView) -> bool {
    safe_segment(sandbox.experiment_id) && paths_expected(place, sandbox)
}

/// The records that are believed among those that were kept.
pub open spec fn believed_records(place: StatePlace, kept: Option<Seq<SandboxView>>) -> Seq<
    SandboxView,
> {
    match kept {
        Some(s) => s.filter(|m: SandboxView| believed(place, m)),
        None => Seq::empty(),
    }
}

/// Records, as views, if there are any.
pub open spec fn opt_records(o: Option<Vec<SandboxMetadata>>) -> Option<Seq<SandboxView>> {
    match o {
        Some(v) => Some(records(v@)),
        None => None,
    }
}

/// The records that are believed among those that were kept. One that names another directory
/// could make the server clean up where it has no business.
pub fn load_sandbox_metadata_from_disk(place: &StatePlace, kept: Option<Vec<SandboxMetadata>>) -> (r:
    Vec<SandboxMetadata>)
    ensures
        records(r@) == believed_records(*place, opt_records(kept)),
{
    let mut out: Vec<SandboxMetadata> = Vec::new();
    let kept = match kept {
        Some(v) => v,
        None => {
            assert(records(out@) =~= Seq::empty());
            return out;
        },
    };
    let ghost all = records(kept@);
    let ghost wanted = |m: SandboxView| believed(*place, m);
    let mut i: usize = 0;
    proof {
        reveal(Seq::filter);
        assert(records(out@) =~= Seq::empty());
        assert(all.subrange(0, 0).filter(wanted) =~= Seq::empty());
    }
    while i < kept.len()
        invariant
            i <= kept@.len(),
            all == records(kept@),
            wanted == (|m: SandboxView| believed(*place, m)),
            records(out@) == all.subrange(0, i as int).filter(wanted),
        decreases kept@.len() - i,
    {
        proof {
            reveal(Seq::filter);
            crate::json::lemma_take_next(all, i as int);
            assert(all[i as int] == kept@[i as int]@);
        }
        if is_safe_path_segment(kept[i].experiment_id.as_str()) && has_expected_sandbox_paths(
            place,
            &kept[i],
        ) {
            let ghost before = out@;
            let c = kept[i].copy();
            out.push(c);
            assert(records(out@) =~= records(before).push(c@));
        }
        i = i + 1;
    }
    assert(all.subrange(0, i as int) =~= all);
    out
}

/// The file that records sandboxes, and what it holds.
pub fn persist_sandbox_metadata_at(base_dir: &str, sandboxes: &Json) -> (r: JsonFile)
    ensures
        holds(r, joined(base_dir@, "sandboxes.json"@), sandboxes@),
{
    JsonFile { path: sandbox_metadata_file(base_dir), text: sandboxes.to_pretty() }
}

/// The order of experiments.
pub open spec fn id_order() -> spec_fn(SandboxView, SandboxView) -> bool {
    |a: SandboxView, b: SandboxView| text_lt(a.experiment_id, b.experiment_id)
}

/// The records of the other experiments.
pub open spec fn others(held: Seq<SandboxView>, experiment_id: Seq<char>) -> Seq<SandboxView>
    decreases held.len(),
{
    if held.len() == 0 {
        Seq::empty()
    } else if held.last().experiment_id != experiment_id {
        others(held.drop_last(), experiment_id).push(held.last())
    } else {
        others(held.drop_last(), experiment_id)
    }
}

/// The records with one more, in place of one of the same experiment, in order.
pub open spec fn remembered(held: Seq<SandboxView>, m: SandboxView) -> Seq<SandboxView> {
    sort_by(others(held, m.experiment_id).push(m), id_order())
}

fn sort_records(v: Vec<SandboxMetadata>) -> (r: Vec<SandboxMetadata>)
    ensures
        records(r@) == sort_by(records(v@), id_order()),
{
    let ghost all = records(v@);
    let mut out: Vec<SandboxMetadata> = Vec::new();
    let mut i: usize = 0;
    assert(all.subrange(0, 0) =~= Seq::empty());
    assert(records(out@) =~= Seq::empty());
    while i < v.len()
        invariant
            i <= v@.len(),
            all == records(v@),
            records(out@) == sort_by(all.subrange(0, i as int), id_order()),
        decreases v@.len() - i,
    {
        proof {
            crate::json::lemma_take_next(all, i as int);
            assert(all[i as int] == v@[i as int]@);
        }
        let m = v[i].copy();
        let ghost s = records(out@);
        let mut k: usize = 0;
        while k < out.len() && !lt(m.experiment_id.as_str(), out[k].experiment_id.as_str())
            invariant
                k <= out@.len(),
                s == records(out@),
                forall|j: int| 0 <= j < k ==> !id_order()(m@, #[trigger] s[j]),
            decreases out@.len() - k,
        {
            assert(s[k as int] == out@[k as int]@);
            k = k + 1;
        }
        proof {
            if k < s.len() {
                assert(s[k as int] == out@[k as int]@);
            }
            lemma_place_is(s, m@, id_order(), k as int);
        }
        let ghost x = m@;
        out.insert(k, m);
        assert(records(out@) =~= s.insert(k as int, x));
        i = i + 1;
    }
    assert(all.subrange(0, i as int) =~= all);
    out
}

/// The records with one more, in place of one of the same experiment, in order.
pub fn remember_sandbox_metadata_at(held: &Vec<SandboxMetadata>, metadata: &SandboxMetadata) -> (r: Vec<
    SandboxMetadata,
>)
    ensures
        records(r@) == remembered(records(held@), metadata@),
{
    let ghost all = records(held@);
    let mut out: Vec<SandboxMetadata> = Vec::new();
    let mut i: usize = 0;
    assert(all.subrange(0, 0) =~= Seq::empty());
    assert(records(out@) =~= Seq::empty());
    while i < held.len()
        invariant
            i <= held@.len(),
            all == records(held@),
            records(out@) == others(all.subrange(0, i as int), metadata@.experiment_id),
        decreases held@.len() - i,
    {
        proof {
            crate::json::lemma_take_next(all, i as int);
            assert(all[i as int] == held@[i as int]@);
        }
        if !same(held[i].experiment_id.as_str(), metadata.experiment_id.as_str()) {
            let ghost before = out@;
            let c = held[i].copy();
            out.push(c);
            assert(records(out@) =~= records(before).push(c@));
        }
        i = i + 1;
    }
    assert(all.subrange(0, i as int) =~= all);
    let ghost before = out@;
    let c = metadata.copy();
    out.push(c);
    assert(records(out@) =~= records(before).push(c@));
    sort_records(out)
}

/// What is kept once a sandbox is added to what was kept.
pub fn remember_sandbox_metadata(
    place: &StatePlace,
    kept: Option<Vec<SandboxMetadata>>,
    metadata: &SandboxMetadata,
) -> (r: Vec<SandboxMetadata>)
    ensures
        records(r@) == remembered(believed_records(*place, opt_records(kept)), metadata@),
{
    let held = load_sandbox_metadata_from_disk(place, kept);
    remember_sandbox_metadata_at(&held, metadata)
}

/// A record, with the note that the sandbox is deleted where it is of an experiment.
pub open spec fn marked(m: SandboxView, experiment_id: Seq<char>) -> SandboxView {
    if m.experiment_id == experiment_id {
        SandboxView { deleted: true, ..m }
    } else {
        m
    }
}

/// What is kept once the sandbox of an experiment is noted as deleted.
pub fn mark_sandbox_metadata_deleted(
    place: &StatePlace,
    kept: Option<Vec<SandboxMetadata>>,
    experiment_id: &str,
) -> (r: Vec<SandboxMetadata>)
    ensures
        records(r@) == believed_records(*place, opt_records(kept)).map_values(
            |m: SandboxView| marked(m, experiment_id@),
        ),
{
    let held = load_sandbox_metadata_from_disk(place, kept);
    let ghost all = records(held@);
    let mut out: Vec<SandboxMetadata> = Vec::new();
    let mut i: usize = 0;
    while i < held.len()
        invariant
            i <= held@.len(),
            all == records(held@),
            out@.len() == i,
            forall|k: int| 0 <= k < i ==> (#[trigger] out@[k])@ == marked(all[k], experiment_id@),
        decreases held@.len() - i,
    {
        assert(all[i as int] == held@[i as int]@);
        let mut c = held[i].copy();
        if same(c.experiment_id.as_str(), experiment_id) {
            c.deleted = true;
        }
        out.push(c);
        i = i + 1;
    }
    assert(records(out@) =~= all.map_values(|m: SandboxView| marked(m, experiment_id@)));
    out
}

proof fn lemma_others(held: Seq<SandboxView>, id: Seq<char>, x: SandboxView)
    ensures
        others(held, id).contains(x) == (held.contains(x) && x.experiment_id != id),
    decreases held.len(),
{
    if held.len() > 0 {
        let t = held.drop_last();
        lemma_others(t, id, x);
        assert(held =~= t.push(held.last()));
        let o = others(t, id);
        if held.contains(x) && x != held.last() {
            let i = choose|i: int| 0 <= i < held.len() && held[i] == x;
            assert(t[i] == x);
        }
        if t.contains(x) {
            let i = choose|i: int| 0 <= i < t.len() && t[i] == x;
            assert(held[i] == x);
        }
        if held.last().experiment_id != id {
            let p = o.push(held.last());
            assert(others(held, id) == p);
            if o.contains(x) {
                let i = choose|i: int| 0 <= i < o.len() && o[i] == x;
                assert(p[i] == x);
            }
            if p.contains(x) && x != held.last() {
                let i = choose|i: int| 0 <= i < p.len() && p[i] == x;
                assert(o[i] == x);
            }
            assert(p[o.len() as int] == held.last());
            assert(held[held.len() - 1] == held.last());
        } else {
            assert(others(held, id) == o);
        }
    }
}

proof fn lemma_id_order()
    ensures
        crate::order::is_order(id_order()),
{
    let lt = id_order();
    assert forall|a: SandboxView| !#[trigger] lt(a, a) by {
        crate::order::law_text_lt_irreflexive(a.experiment_id);
    }
    assert forall|a: SandboxView, b: SandboxView, c: SandboxView| #[trigger]
        lt(a, b) && #[trigger] lt(b, c) implies lt(a, c) by {
        crate::order::law_text_lt_transitive(a.experiment_id, b.experiment_id, c.experiment_id);
    }
    assert forall|a: SandboxView, b: SandboxView, c: SandboxView|
        !#[trigger] lt(a, b) && !#[trigger] lt(b, c) implies !lt(a, c) by {
        lemma_not_lt_transitive(a.experiment_id, b.experiment_id, c.experiment_id);
    }
}

/// A sandbox that is remembered is among the records from then on, as the only one of its
/// experiment; every record of another experiment stays; and the records are in order.
pub proof fn law_a_remembered_sandbox_is_recorded(
    held: Seq<SandboxView>,
    m: SandboxView,
    x: SandboxView,
)
    ensures
        remembered(held, m).contains(m),
        remembered(held, m).contains(x) <==> x == m || (held.contains(x) && x.experiment_id
            != m.experiment_id),
        crate::order::sorted_by(remembered(held, m), id_order()),
{
    let o = others(held, m.experiment_id);
    let p = o.push(m);
    let s = remembered(held, m);
    lemma_id_order();
    crate::order::law_sort_by(p, id_order());
    assert forall|y: SandboxView| s.contains(y) == p.contains(y) by {
        s.to_multiset_ensures();
        p.to_multiset_ensures();
        assert(s.to_multiset().count(y) == p.to_multiset().count(y));
    }
    lemma_others(held, m.experiment_id, x);
    assert(p[o.len() as int] == m);
    if o.contains(x) {
        let i = choose|i: int| 0 <= i < o.len() && o[i] == x;
        assert(p[i] == x);
    }
    if p.contains(x) && x != m {
        let i = choose|i: int| 0 <= i < p.len() && p[i] == x;
        assert(o[i] == x);
    }
    if o.contains(m) {
        lemma_others(held, m.experiment_id, m);
    }
}

proof fn lemma_not_lt_transitive(a: Seq<char>, b: Seq<char>, c: Seq<char>)
    requires
        !text_lt(a, b),
        !text_lt(b, c),
    ensures
        !text_lt(a, c),
{
    if text_lt(a, c) {
        crate::order::law_text_lt_total(b, c);
        if b != c {
            crate::order::law_text_lt_transitive(a, c, b);
        }
    }
}

/// What is written of a sandbox is read again: where the record of a sandbox is believed, it is
/// among the records that are read after it was remembered.
pub proof fn law_a_remembered_sandbox_is_read_back(
    place: StatePlace,
    held: Seq<SandboxView>,
    m: SandboxView,
)
    requires
        believed(place, m),
    ensures
        believed_records(place, Some(remembered(held, m))).contains(m),
{
    law_a_remembered_sandbox_is_recorded(held, m, m);
    let s = remembered(held, m);
    let p = |x: SandboxView| believed(place, x);
    broadcast use vstd::seq_lib::group_filter_ensures;
    let i = choose|i: int| 0 <= i < s.len() && s[i] == m;
    assert(p(s[i]));
    assert(s.filter(p).contains(s[i]));
}

proof fn lemma_others_split(a: Seq<SandboxView>, b: Seq<SandboxView>, id: Seq<char>)
    ensures
        others(a + b, id) == others(a, id) + others(b, id),
    decreases b.len(),
{
    if b.len() == 0 {
        assert(a + b =~= a);
        assert(others(a, id) + others(b, id) =~= others(a, id));
    } else {
        let c = b.drop_last();
        lemma_others_split(a, c, id);
        assert((a + b).drop_last() =~= a + c);
        assert((a + b).last() == b.last());
        assert(others(a, id) + others(c, id).push(b.last()) =~= (others(a, id) + others(
            c,
            id,
        )).push(b.last()));
    }
}

proof fn lemma_others_of_others(s: Seq<SandboxView>, id: Seq<char>)
    requires
        forall|i: int| 0 <= i < s.len() ==> (#[trigger] s[i]).experiment_id != id,
    ensures
        others(s, id) == s,
    decreases s.len(),
{
    if s.len() > 0 {
        let t = s.drop_last();
        assert forall|i: int| 0 <= i < t.len() implies (#[trigger] t[i]).experiment_id != id by {
            assert(t[i] == s[i]);
        }
        lemma_others_of_others(t, id);
        assert(s[s.len() - 1].experiment_id != id);
        assert(t.push(s.last()) =~= s);
    } else {
        assert(s =~= Seq::empty());
    }
}

proof fn lemma_remembered(held: Seq<SandboxView>, m: SandboxView)
    ensures
        ({
            let s = crate::order::sort_by(others(held, m.experiment_id), id_order());
            let p = crate::order::place_by(s, m, id_order());
            &&& crate::order::sorted_by(s, id_order())
            &&& 0 <= p <= s.len()
            &&& remembered(held, m) == s.insert(p, m)
            &&& forall|i: int|
                0 <= i < s.len() ==> (#[trigger] s[i]).experiment_id != m.experiment_id
        }),
{
    let id = m.experiment_id;
    let lt = id_order();
    let o = others(held, id);
    let s = crate::order::sort_by(o, lt);
    lemma_id_order();
    crate::order::law_sort_by(o, lt);
    crate::order::lemma_place_by(s, m, lt);
    assert(o.push(m).drop_last() =~= o);
    assert forall|i: int| 0 <= i < s.len() implies (#[trigger] s[i]).experiment_id != id by {
        s.to_multiset_ensures();
        o.to_multiset_ensures();
        assert(s.contains(s[i]));
        assert(s.to_multiset().count(s[i]) == o.to_multiset().count(s[i]));
        lemma_others(held, id, s[i]);
    }
}

/// Of the experiment of a remembered sandbox there is exactly one record.
pub proof fn law_one_record_of_the_experiment(
    held: Seq<SandboxView>,
    m: SandboxView,
    i: int,
    j: int,
)
    requires
        0 <= i < remembered(held, m).len(),
        0 <= j < remembered(held, m).len(),
        remembered(held, m)[i].experiment_id == m.experiment_id,
        remembered(held, m)[j].experiment_id == m.experiment_id,
    ensures
        i == j,
        remembered(held, m)[i] == m,
{
    lemma_remembered(held, m);
    let s = crate::order::sort_by(others(held, m.experiment_id), id_order());
    let p = crate::order::place_by(s, m, id_order());
    let r = remembered(held, m);
    if i != p {
        let k = if i < p {
            i
        } else {
            i - 1
        };
        assert(r[i] == s[k]);
    }
    if j != p {
        let k = if j < p {
            j
        } else {
            j - 1
        };
        assert(r[j] == s[k]);
    }
}

/// Remembering a sandbox a second time changes nothing.
pub proof fn law_remembering_twice_changes_nothing(held: Seq<SandboxView>, m: SandboxView)
    ensures
        remembered(remembered(held, m), m) == remembered(held, m),
{
    let id = m.experiment_id;
    let lt = id_order();
    let s = crate::order::sort_by(others(held, id), lt);
    let p = crate::order::place_by(s, m, lt);
    let r = remembered(held, m);
    lemma_remembered(held, m);
    let before = s.subrange(0, p);
    let after = s.subrange(p, s.len() as int);
    let one = seq![m];
    assert(r =~= before + one + after);
    assert(s =~= before + after);
    lemma_others_split(before + one, after, id);
    lemma_others_split(before, one, id);
    assert(one.drop_last() =~= Seq::empty());
    assert(others(one.drop_last(), id) =~= Seq::empty());
    assert(others(one, id) =~= Seq::empty());
    assert forall|i: int| 0 <= i < before.len() implies (#[trigger] before[i]).experiment_id
        != id by {
        assert(before[i] == s[i]);
    }
    assert forall|i: int| 0 <= i < after.len() implies (#[trigger] after[i]).experiment_id
        != id by {
        assert(after[i] == s[p + i]);
    }
    lemma_others_of_others(before, id);
    lemma_others_of_others(after, id);
    assert(others(r, id) =~= s);
    crate::order::lemma_sorted_stays(s, lt);
    assert(s.push(m).drop_last() =~= s);
}

proof fn lemma_all_believed(place: StatePlace, s: Seq<SandboxView>)
    requires
        forall|i: int| 0 <= i < s.len() ==> believed(place, #[trigger] s[i]),
    ensures
        believed_records(place, Some(s)) == s,
    decreases s.len(),
{
    reveal(Seq::filter);
    if s.len() > 0 {
        let t = s.drop_last();
        assert forall|i: int| 0 <= i < t.len() implies believed(place, #[trigger] t[i]) by {
            assert(t[i] == s[i]);
        }
        lemma_all_believed(place, t);
        assert(believed(place, s[s.len() - 1]));
        assert(t.push(s.last()) =~= s);
    } else {
        assert(s.filter(|m: SandboxView| believed(place, m)) =~= s);
    }
}

/// What is read after a sandbox was remembered is what was read before without the records of its
/// experiment, with it, in order: where all of these are believed, nothing is lost or altered on
/// the way through the file, and a second call finds the records as the first left them.
pub proof fn law_what_is_remembered_is_what_is_read(
    place: StatePlace,
    kept: Option<Seq<SandboxView>>,
    m: SandboxView,
)
    requires
        believed(place, m),
    ensures
        ({
            let held = believed_records(place, kept);
            let written = remembered(held, m);
            &&& believed_records(place, Some(written)) == written
            &&& remembered(believed_records(place, Some(written)), m) == written
        }),
{
    let held = believed_records(place, kept);
    let written = remembered(held, m);
    let b = |x: SandboxView| believed(place, x);
    assert forall|x: SandboxView| held.contains(x) implies believed(place, x) by {
        if kept is Some {
            broadcast use vstd::seq_lib::group_filter_ensures;

            let i = choose|i: int| 0 <= i < held.len() && held[i] == x;
            assert(b(kept->0.filter(b)[i]));
        }
    }
    assert forall|i: int| 0 <= i < written.len() implies believed(place, #[trigger] written[i]) by {
        law_a_remembered_sandbox_is_recorded(held, m, written[i]);
        assert(written.contains(written[i]));
    }
    lemma_all_believed(place, written);
    law_remembering_twice_changes_nothing(held, m);
}

/// Where every record that is held is believed, and the new one is, all of them are read back.
pub proof fn law_believed_records_are_read_back(
    place: StatePlace,
    held: Seq<SandboxView>,
    m: SandboxView,
)
    requires
        believed(place, m),
        forall|i: int| 0 <= i < held.len() ==> believed(place, #[trigger] held[i]),
    ensures
        believed_records(place, Some(remembered(held, m))) == remembered(held, m),
{
    lemma_all_believed(place, held);
    law_what_is_remembered_is_what_is_read(place, Some(held), m);
}

/// Noting that a sandbox is deleted changes nothing else: as many records stay, of the same
/// experiments, and all that are noted as deleted stay so.
pub proof fn law_marking_changes_one_flag(m: SandboxView, experiment_id: Seq<char>)
    ensures
        marked(m, experiment_id) == (SandboxView {
            deleted: m.deleted || m.experiment_id == experiment_id,
            ..m
        }),
        marked(marked(m, experiment_id), experiment_id) == marked(m, experiment_id),
{
}

// ---------------------------------------------------------------------------
// What holds of names, directories and what is kept in them
// ---------------------------------------------------------------------------

/// A name can be a directory where it is of letters, digits, underscores and hyphens, at least one
/// and at most 128 of them.
pub proof fn law_which_names_are_safe(value: Seq<char>, i: int)
    ensures
        value.len() == 0 ==> !safe_segment(value),
        value.len() > 128 ==> !safe_segment(value),
        0 <= i < value.len() && (value[i] == '/' || value[i] == '.' || value[i] == ' ' || value[i]
            == ':') ==> !safe_segment(value),
        0 < value.len() <= 128 && (forall|j: int|
            0 <= j < value.len() ==> 'a' <= (#[trigger] value[j]) <= 'z' || 'A' <= value[j] <= 'Z'
                || '0' <= value[j] <= '9' || value[j] == '_' || value[j] == '-') ==> safe_segment(
            value,
        ),
{
    if 0 < value.len() <= 128 && (forall|j: int|
        0 <= j < value.len() ==> 'a' <= (#[trigger] value[j]) <= 'z' || 'A' <= value[j] <= 'Z'
            || '0' <= value[j] <= '9' || value[j] == '_' || value[j] == '-') {
        assert forall|j: int| 0 <= j < value.len() implies is_segment_char(#[trigger] value[j]) by {}
    }
}

/// A name that is refused is told with the field it stood in.
pub proof fn law_a_refused_name_is_told(value: Seq<char>, field: Seq<char>, reason: Seq<char>)
    ensures
        unsafe_segment(value, field).message == field
            + " must be 1-128 characters of [A-Za-z0-9_-]; it becomes a directory name"@,
        unsafe_segment(value, field).data is Some,
        unsafe_segment(value, field).data->0.text("kind"@) == Some("UnsafePathSegment"@),
        unsafe_segment(value, field).data->0.text("field"@) == Some(field),
        unsafe_segment(value, field).data->0.text("value"@) == Some(value),
        refused(value, reason).message == "output must stay inside the working directory: "@
            + reason,
        refused(value, reason).data is Some,
        refused(value, reason).data->0.text("kind"@) == Some("OutputPathOutsideWorkingDirectory"@),
        refused(value, reason).data->0.text("output"@) == Some(value),
        refused(value, reason).data->0.text("reason"@) == Some(reason),
{
    broadcast use crate::json::group_object_reads;

    reveal_strlit("kind");
    reveal_strlit("field");
    reveal_strlit("value");
    assert("kind"@.len() == 4 && "field"@.len() == 5);
    assert("value"@.len() == 5);
    assert("field"@[0] != "value"@[0]);
    reveal_strlit("output");
    reveal_strlit("reason");
    reveal_strlit("kind");
    assert("output"@.len() == 6 && "reason"@.len() == 6);
    assert("kind"@.len() == 4);
    assert("output"@[0] != "reason"@[0]);
}

/// What is written stands where the path leads, when the path stays below the root and nothing on
/// it leads elsewhere; each refusal has its own reason.
pub proof fn law_where_output_is_written(
    root: Seq<char>,
    path: Seq<char>,
    there: String,
    parts: Seq<Seq<char>>,
    p: String,
    error: String,
)
    requires
        normalized(components(joined(root, path))) == Some(parts),
    ensures
        is_below(parts, components(root)) && is_below(components(there@), components(root))
            ==> output_path(root, path, Ancestor::Real(there)) == Ok::<_, Seq<char>>(
            path_text(parts),
        ),
        is_below(parts, components(root)) && !is_below(components(there@), components(root))
            ==> output_path(root, path, Ancestor::Real(there)) == Err::<Seq<char>, Seq<char>>(
            "a symlink on the path leaves the working directory"@,
        ),
        !is_below(parts, components(root)) ==> output_path(root, path, Ancestor::Real(there))
            == Err::<Seq<char>, Seq<char>>("resolved outside it"@),
        is_below(parts, components(root)) ==> output_path(root, path, Ancestor::Missing) == Err::<
            Seq<char>,
            Seq<char>,
        >("no existing ancestor to check"@),
        is_below(parts, components(root)) ==> output_path(
            root,
            path,
            Ancestor::Unresolved { path: p, error },
        ) == Err::<Seq<char>, Seq<char>>("cannot resolve "@ + p@ + ": "@ + error@),
{
}

/// The state is kept where it is said to be, and in `.frama-c-mcp` where nothing is said.
pub proof fn law_where_the_state_is_kept(d: Seq<char>)
    ensures
        base_dir(Some(d)) == d,
        base_dir(None) == ".frama-c-mcp"@,
{
}

/// A conclusion names the long texts that stand in files of their own, in a fixed order; the rest
/// of it is kept as it is.
pub proof fn law_long_texts_are_named(conclusion: JsonView, files: LongTextFiles, key: Seq<char>)
    requires
        conclusion is Object,
        key != "_long_text_files"@,
    ensures
        meta_of(conclusion, files).get(key) == conclusion.get(key),
        !files.semantic_proof && !files.semiformal_proof && !files.program_summary ==> meta_of(
            conclusion,
            files,
        ) == conclusion,
        files.semantic_proof || files.semiformal_proof || files.program_summary ==> meta_of(
            conclusion,
            files,
        ).at("_long_text_files"@, "files"@) == Some(JsonView::strings(long_text_names(files))),
        long_text_names(files).contains("semantic_proof.md"@) <==> files.semantic_proof,
        long_text_names(files).contains("semiformal_proof.md"@) <==> files.semiformal_proof,
        long_text_names(files).contains("program_summary.md"@) <==> files.program_summary,
        files.semantic_proof && files.semiformal_proof && files.program_summary
            ==> long_text_names(files) == seq![
            "semantic_proof.md"@,
            "semiformal_proof.md"@,
            "program_summary.md"@,
        ],
{
    broadcast use crate::json::group_object_reads;

    reveal_strlit("semantic_proof.md");
    reveal_strlit("semiformal_proof.md");
    reveal_strlit("program_summary.md");
    assert("semantic_proof.md"@.len() == 17 && "semiformal_proof.md"@.len() == 19);
    assert("program_summary.md"@.len() == 18);
    reveal_strlit("_comment");
    reveal_strlit("files");
    assert("_comment"@.len() == 8 && "files"@.len() == 5);
    let a = if files.semantic_proof {
        seq!["semantic_proof.md"@]
    } else {
        Seq::empty()
    };
    let b = if files.semiformal_proof {
        seq!["semiformal_proof.md"@]
    } else {
        Seq::empty()
    };
    let n = long_text_names(files);
    if files.semantic_proof {
        assert(n[0] == "semantic_proof.md"@);
    }
    if files.semiformal_proof {
        assert(n[a.len() as int] == "semiformal_proof.md"@);
    }
    if files.program_summary {
        assert(n[(a.len() + b.len()) as int] == "program_summary.md"@);
    }
}

/// A conclusion without a receipt of the present shape has none of its own.
pub proof fn law_a_receipt_must_be_of_the_present_kind(receipt: JsonView, c: FunctionVerificationState)
    ensures
        !has_own_receipt(None),
        receipt.text("schema"@) != Some(RECEIPT_SCHEMA@) ==> !has_own_receipt(Some(receipt)),
        receipt.get("schema"@) is None ==> !has_own_receipt(Some(receipt)),
        c.status == VerificationStatus::Verified && c.proof_receipt is None ==> is_downgraded(c),
        c.status != VerificationStatus::Verified ==> !is_downgraded(c),
{
}

/// A directory that is found counts where its name is safe and it holds a conclusion.
pub proof fn law_what_is_found_on_disk(found: Seq<FoundConclusion>, f: FoundConclusion)
    ensures
        f.name is Some && safe_segment(f.name->0@) && f.conclusion is Some ==> holding(
            found.push(f),
        ) == holding(found).push(f),
        f.name is None || f.conclusion is None ==> holding(found.push(f)) == holding(found),
        f.name is Some && !safe_segment(f.name->0@) ==> holding(found.push(f)) == holding(found),
{
    assert(found.push(f).drop_last() =~= found);
}

/// What is listed of a conclusion is its function, its status and the number of its annotations.
pub proof fn law_a_conclusion_in_short(c: ListedConclusion)
    ensures
        conclusion_summary(c).text("function"@) == Some(c.function@),
        conclusion_summary(c).text("status"@) == Some(status_word(c.status)),
        conclusion_summary(c).get("annotation_count"@) == Some(
            JsonView::num(c.annotation_count as int),
        ),
{
    broadcast use crate::json::group_object_reads;

    reveal_strlit("function");
    reveal_strlit("status");
    reveal_strlit("annotation_count");
    assert("function"@.len() == 8 && "status"@.len() == 6);
    assert("annotation_count"@.len() == 16);
}

/// Every user has a root of their own.
pub proof fn law_users_are_kept_apart(a: nat, b: nat)
    requires
        a <= u32::MAX,
        b <= u32::MAX,
        private_root(a as int) == private_root(b as int),
    ensures
        a == b,
{
    reveal_strlit("/tmp/fcmcp-");
    let ra = private_root(a as int);
    let rb = private_root(b as int);
    assert(ra.subrange(11, ra.len() as int) =~= decimal(a));
    assert(rb.subrange(11, rb.len() as int) =~= decimal(b));
    crate::text::law_decimal_round_trip(a, u32::MAX as nat);
    crate::text::law_decimal_round_trip(b, u32::MAX as nat);
}

proof fn lemma_a_sandbox_has_a_name(place: StatePlace, id: Seq<char>)
    requires
        safe_segment(id),
    ensures
        is_name(
            "sb-"@ + prefix(sha256_hex_of(encode_utf8(state_path(place))), 8) + "-"@ + id,
        ),
{
    reveal_strlit("sb-");
    reveal_strlit("-");
    reveal_strlit(".");
    let digest = sha256_hex_of(encode_utf8(state_path(place)));
    assert forall|i: int| 0 <= i < digest.len() implies digest[i] != '/' by {
        let b = crate::outside::sha256(encode_utf8(state_path(place)))[i / 2] as int;
        assert(0 <= b / 16 < 16 && 0 <= b % 16 < 16);
    }
    let p = prefix(digest, 8);
    assert forall|i: int| 0 <= i < p.len() implies p[i] != '/' by {
        assert(p[i] == digest[i]);
    }
    let n = "sb-"@ + p + "-"@ + id;
    assert(n[0] == 's');
    assert(n.len() >= 4);
    assert forall|i: int| 0 <= i < n.len() implies n[i] != '/' by {
        if i < 3 {
            assert(n[i] == "sb-"@[i]);
        } else if i < 3 + p.len() {
            assert(n[i] == p[i - 3]);
        } else if i == 3 + p.len() {
            assert(n[i] == "-"@[0]);
        } else {
            assert(n[i] == id[i - 4 - p.len()]);
            assert(is_segment_char(id[i - 4 - p.len()]));
        }
    }
}

/// Sandboxes of different names stand in different directories.
pub proof fn law_sandboxes_are_kept_apart(place: StatePlace, a: Seq<char>, b: Seq<char>)
    requires
        safe_segment(a),
        safe_segment(b),
        components(sandbox_dir(place, a)) == components(sandbox_dir(place, b)),
    ensures
        a == b,
{
    let h = "sb-"@ + prefix(sha256_hex_of(encode_utf8(state_path(place))), 8) + "-"@;
    let root = private_root(place.user as int);
    lemma_a_sandbox_has_a_name(place, a);
    lemma_a_sandbox_has_a_name(place, b);
    law_a_name_leads_one_step_down(root, h + a);
    law_a_name_leads_one_step_down(root, h + b);
    assert(components(joined(root, h + a)).last() == h + a);
    assert(components(joined(root, h + b)).last() == h + b);
    assert((h + a).subrange(h.len() as int, (h + a).len() as int) =~= a);
    assert((h + b).subrange(h.len() as int, (h + b).len() as int) =~= b);
}

/// A directory is private where it is one, is no link, belongs to the user, and gives nobody else
/// any right; what is wrong with another is told, the worst first.
pub proof fn law_which_directories_are_private(is_dir: bool, owner: u32, mode: u32, me: u32)
    ensures
        open_to_others(mode) <==> (mode / 8) % 8 != 0 || mode % 8 != 0,
        dir_complaint(DirFound::Found { is_symlink: true, is_dir, owner, mode }, me) == Some(
            "is a symlink, so it names someone else's directory"@,
        ),
        dir_complaint(DirFound::Found { is_symlink: false, is_dir: false, owner, mode }, me) == Some(
            "exists and is not a directory"@,
        ),
        owner != me ==> dir_complaint(
            DirFound::Found { is_symlink: false, is_dir: true, owner, mode },
            me,
        ) == Some("is owned by another user"@),
        (mode / 8) % 8 != 0 || mode % 8 != 0 ==> dir_complaint(
            DirFound::Found { is_symlink: false, is_dir: true, owner: me, mode },
            me,
        ) == Some("is readable or writable by others"@),
        (mode / 8) % 8 == 0 && mode % 8 == 0 ==> dir_complaint(
            DirFound::Found { is_symlink: false, is_dir: true, owner: me, mode },
            me,
        ) is None,
{
}

/// A record is believed exactly where its name is safe and its directory and its socket are those
/// of its name.
pub proof fn law_a_record_elsewhere_is_not_believed(place: StatePlace, m: SandboxView)
    ensures
        components(m.sandbox_dir) != components(sandbox_dir(place, m.experiment_id)) ==> !believed(
            place,
            m,
        ),
        components(m.sandbox_socket) != components(
            joined(sandbox_dir(place, m.experiment_id), "frama-c.sock"@),
        ) ==> !believed(place, m),
        !safe_segment(m.experiment_id) ==> !believed(place, m),
        safe_segment(m.experiment_id) && m.sandbox_dir == sandbox_dir(place, m.experiment_id)
            && m.sandbox_socket == joined(m.sandbox_dir, "frama-c.sock"@) ==> believed(place, m),
{
}

/// A conclusion is read with its long texts, each under its own name; a summary only where there is
/// one.
pub proof fn law_long_texts_are_read_back(base: JsonView, t: LongTexts, key: Seq<char>)
    requires
        base is Object,
        key != "semantic_proof"@,
        key != "semiformal_proof"@,
        key != "program_summary"@,
    ensures
        t.semantic_proof is Some ==> with_long_texts(base, t).text("semantic_proof"@) == Some(
            t.semantic_proof->0@,
        ),
        t.semiformal_proof is Some ==> with_long_texts(base, t).text("semiformal_proof"@) == Some(
            t.semiformal_proof->0@,
        ),
        t.program_summary is Some ==> with_long_texts(base, t).text("program_summary"@) == Some(
            t.program_summary->0@,
        ),
        t.program_summary is None ==> with_long_texts(base, t).get("program_summary"@) == base.get(
            "program_summary"@,
        ),
        with_long_texts(base, t).get(key) == base.get(key),
{
    broadcast use crate::json::group_object_reads;

    reveal_strlit("semantic_proof");
    reveal_strlit("semiformal_proof");
    reveal_strlit("program_summary");
    assert("semantic_proof"@.len() == 14 && "semiformal_proof"@.len() == 16);
    assert("program_summary"@.len() == 15);
}

} // verus!
