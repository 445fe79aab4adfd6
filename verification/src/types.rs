//! What a caller may ask, and what is answered about annotations.

use crate::json::{opt_value, Json, JsonView};
use crate::outside::{
    debug_quoted, debug_text, json_parse, json_parse_error, json_text, lowercase, unicode_lowercase,
};
use crate::text::{cat2, contains, occurs, owned, same, trim, trim_spec};
use vstd::prelude::*;
use vstd::string::*;

verus! {

// ---------------------------------------------------------------------------
// Tolerant readings of a parameter
// ---------------------------------------------------------------------------

/// What a flag is read as: `true`, `false`, or either of them as text. An empty text, as some
/// clients send for "unset", is nothing; any other text is refused rather than read as `false`.
pub open spec fn flag_read(value: Option<JsonView>) -> Result<Option<bool>, Seq<char>> {
    match value {
        None => Ok(None),
        Some(JsonView::Null) => Ok(None),
        Some(JsonView::Bool(b)) => Ok(Some(b)),
        Some(JsonView::Str(s)) => {
            let t = trim_spec(s);
            if t == ""@ {
                Ok(None)
            } else if t == "true"@ {
                Ok(Some(true))
            } else if t == "false"@ {
                Ok(Some(false))
            } else {
                Err("expected true or false, got the string "@ + debug_quoted(t))
            }
        },
        Some(other) => Err("expected a boolean, got "@ + json_text(crate::json::collected(other))),
    }
}

/// Whether a reading is the one described, with the error compared by its text.
pub open spec fn reads<T>(r: Result<T, String>, described: Result<T, Seq<char>>) -> bool {
    match r {
        Ok(v) => described == Ok::<T, Seq<char>>(v),
        Err(e) => described == Err::<T, Seq<char>>(e@),
    }
}

/// Reads a flag that some clients send as text.
pub fn deserialize_bool_or_string(value: Option<Json>) -> (r: Result<Option<bool>, String>)
    ensures
        reads(r, flag_read(opt_value(value))),
{
    match value {
        None => Ok(None),
        Some(Json::Null) => Ok(None),
        Some(Json::Bool(b)) => Ok(Some(b)),
        Some(Json::Str(s)) => {
            let t = trim(s.as_str());
            let t = t.as_str();
            if same(t, "") {
                Ok(None)
            } else if same(t, "true") {
                Ok(Some(true))
            } else if same(t, "false") {
                Ok(Some(false))
            } else {
                Err(cat2("expected true or false, got the string ", debug_text(t).as_str()))
            }
        },
        Some(other) => Err(cat2("expected a boolean, got ", other.to_text().as_str())),
    }
}

/// What a value that is no array is called.
pub open spec fn shape_name(v: JsonView) -> Seq<char> {
    match v {
        JsonView::Object(_) => "object"@,
        JsonView::Number(_) => "number"@,
        JsonView::Bool(_) => "bool"@,
        _ => "other"@,
    }
}

/// What a list is read as: an array, or the text of one. An empty text is nothing.
pub open spec fn list_read(value: Option<JsonView>) -> Result<Option<Seq<JsonView>>, Seq<char>> {
    match value {
        None => Ok(None),
        Some(JsonView::Null) => Ok(None),
        Some(JsonView::Array(items)) => Ok(Some(items)),
        Some(JsonView::Str(s)) => if trim_spec(s).len() == 0 {
            Ok(None)
        } else {
            match json_parse(s) {
                Some(JsonView::Array(items)) => Ok(Some(items)),
                Some(_) => Err("field passed as string but parsed JSON is not an array"@),
                None => Err(
                    "field passed as string but not valid JSON array: "@ + json_parse_error(s),
                ),
            }
        },
        Some(other) => Err(
            "expected array or stringified JSON array, got "@ + shape_name(other),
        ),
    }
}

/// Reads a list that some clients send as text.
pub fn deserialize_vec_or_string(value: Option<Json>) -> (r: Result<Option<Vec<Json>>, String>)
    ensures
        match r {
            Ok(Some(v)) => list_read(opt_value(value)) == Ok::<_, Seq<char>>(
                Some(crate::json::models(v@)),
            ),
            Ok(None) => list_read(opt_value(value)) == Ok::<Option<Seq<JsonView>>, Seq<char>>(None),
            Err(e) => list_read(opt_value(value)) == Err::<Option<Seq<JsonView>>, _>(e@),
        },
{
    broadcast use crate::json::lemma_array_view;

    match value {
        None => Ok(None),
        Some(Json::Null) => Ok(None),
        Some(Json::Array(items)) => Ok(Some(items)),
        Some(Json::Str(s)) => {
            if trim(s.as_str()).as_str().is_empty() {
                return Ok(None);
            }
            match Json::parse(s.as_str()) {
                Ok(Json::Array(items)) => Ok(Some(items)),
                Ok(_) => Err(owned("field passed as string but parsed JSON is not an array")),
                Err(e) => Err(
                    cat2("field passed as string but not valid JSON array: ", e.as_str()),
                ),
            }
        },
        Some(Json::Object(_)) => Err(
            cat2("expected array or stringified JSON array, got ", "object"),
        ),
        Some(Json::Number(_)) => Err(
            cat2("expected array or stringified JSON array, got ", "number"),
        ),
        Some(Json::Bool(_)) => Err(cat2("expected array or stringified JSON array, got ", "bool")),
    }
}

/// What a list that must be there is read as.
pub open spec fn required_list_read(value: Option<JsonView>) -> Result<Seq<JsonView>, Seq<char>> {
    match list_read(value) {
        Ok(Some(items)) => Ok(items),
        Ok(None) => Err("expected array or stringified JSON array"@),
        Err(e) => Err(e),
    }
}

/// Reads a list that must be there, and that some clients send as text.
pub fn deserialize_required_vec_or_string(value: Option<Json>) -> (r: Result<Vec<Json>, String>)
    ensures
        match r {
            Ok(v) => required_list_read(opt_value(value)) == Ok::<_, Seq<char>>(
                crate::json::models(v@),
            ),
            Err(e) => required_list_read(opt_value(value)) == Err::<Seq<JsonView>, _>(e@),
        },
{
    match deserialize_vec_or_string(value) {
        Ok(Some(items)) => Ok(items),
        Ok(None) => Err(owned("expected array or stringified JSON array")),
        Err(e) => Err(e),
    }
}

/// What a value is read as: itself, or what its text holds. An empty text is nothing.
pub open spec fn value_read(value: Option<JsonView>) -> Result<Option<JsonView>, Seq<char>> {
    match value {
        None => Ok(None),
        Some(JsonView::Null) => Ok(None),
        Some(JsonView::Str(s)) => if trim_spec(s).len() == 0 {
            Ok(None)
        } else {
            match json_parse(s) {
                Some(v) => Ok(Some(v)),
                None => Err("field passed as string but not valid JSON: "@ + json_parse_error(s)),
            }
        },
        Some(other) => Ok(Some(other)),
    }
}

/// Reads a value that some clients send as text.
pub fn deserialize_value_or_string(value: Option<Json>) -> (r: Result<Option<Json>, String>)
    ensures
        match r {
            Ok(v) => value_read(opt_value(value)) == Ok::<_, Seq<char>>(opt_value(v)),
            Err(e) => value_read(opt_value(value)) == Err::<Option<JsonView>, _>(e@),
        },
{
    match value {
        None => Ok(None),
        Some(Json::Null) => Ok(None),
        Some(Json::Str(s)) => {
            if trim(s.as_str()).as_str().is_empty() {
                return Ok(None);
            }
            match Json::parse(s.as_str()) {
                Ok(v) => Ok(Some(v)),
                Err(e) => Err(cat2("field passed as string but not valid JSON: ", e.as_str())),
            }
        },
        Some(other) => Ok(Some(other)),
    }
}

// ---------------------------------------------------------------------------
// The vocabulary of parameters
// ---------------------------------------------------------------------------

/// How much of a response to return.
#[derive(Clone, Copy, PartialEq, Eq, Debug, Structural)]
pub enum Detail {
    /// Counts plus the entries that need attention.
    Summary,
    /// Every entry.
    Full,
}

impl Default for Detail {
    fn default() -> (r: Detail)
        ensures
            r == Detail::Summary,
    {
        Detail::Summary
    }
}

impl Detail {
    /// Whether every entry is asked for.
    pub fn is_full(self) -> (r: bool)
        ensures
            r == (self == Detail::Full),
    {
        self == Detail::Full
    }

    /// The word a detail is asked for by.
    pub open spec fn word(self) -> Seq<char> {
        match self {
            Detail::Summary => "summary"@,
            Detail::Full => "full"@,
        }
    }

    /// The word a detail is asked for by.
    pub fn as_str(self) -> (r: &'static str)
        ensures
            r@ == self.word(),
    {
        match self {
            Detail::Summary => "summary",
            Detail::Full => "full",
        }
    }
}

/// Which analyses one check runs.
#[derive(Clone, Copy, PartialEq, Eq, Debug, Structural)]
pub enum CheckAnalysis {
    /// The abstract interpreter.
    Eva,
    /// The deductive prover.
    Wp,
}

/// What one call asks the property table for.
#[derive(Clone, Copy, PartialEq, Eq, Debug, Structural)]
pub enum FindingKind {
    Goals,
    Alarms,
    Counts,
    Vc,
    Investigation,
}

impl FindingKind {
    /// The name this want is asked for by, and the key it answers under.
    pub open spec fn word(self) -> Seq<char> {
        match self {
            FindingKind::Goals => "goals"@,
            FindingKind::Alarms => "alarms"@,
            FindingKind::Counts => "counts"@,
            FindingKind::Vc => "vc"@,
            FindingKind::Investigation => "investigation"@,
        }
    }

    /// The name this want is asked for by, and the key it answers under.
    pub fn name(&self) -> (r: &'static str)
        ensures
            r@ == self.word(),
    {
        match self {
            FindingKind::Goals => "goals",
            FindingKind::Alarms => "alarms",
            FindingKind::Counts => "counts",
            FindingKind::Vc => "vc",
            FindingKind::Investigation => "investigation",
        }
    }
}

/// No two wants of the property table answer under one key.
pub proof fn law_findings_have_their_own_names(a: FindingKind, b: FindingKind)
    requires
        a.word() == b.word(),
    ensures
        a == b,
{
    reveal_strlit("goals");
    reveal_strlit("alarms");
    reveal_strlit("counts");
    reveal_strlit("vc");
    reveal_strlit("investigation");
    let (s, t) = (a.word(), b.word());
    assert(s.len() == t.len() && s[0] == t[0] && s[1] == t[1]);
    assert(s.len() > 6 ==> s[6] == t[6]);
}

/// What one call asks of the program around a function.
#[derive(Clone, Copy, PartialEq, Eq, Debug, Structural)]
pub enum ContextKind {
    FunctionAst,
    CilContext,
    ContractContext,
    LogicDeps,
    PropertyContext,
    RteObligations,
    CurrentAnnotations,
    WriteEffects,
    LoopEffects,
    Messages,
    Source,
    Symbol,
    MarkerAt,
    EvaValue,
    Callgraph,
    Callers,
    CallChain,
}

impl ContextKind {
    /// The name this want is asked for by, and the key it answers under.
    pub open spec fn word(self) -> Seq<char> {
        match self {
            ContextKind::FunctionAst => "function_ast"@,
            ContextKind::CilContext => "cil_context"@,
            ContextKind::ContractContext => "contract_context"@,
            ContextKind::LogicDeps => "logic_deps"@,
            ContextKind::PropertyContext => "property_context"@,
            ContextKind::RteObligations => "rte_obligations"@,
            ContextKind::CurrentAnnotations => "current_annotations"@,
            ContextKind::WriteEffects => "write_effects"@,
            ContextKind::LoopEffects => "loop_effects"@,
            ContextKind::Messages => "messages"@,
            ContextKind::Source => "source"@,
            ContextKind::Symbol => "symbol"@,
            ContextKind::MarkerAt => "marker_at"@,
            ContextKind::EvaValue => "eva_value"@,
            ContextKind::Callgraph => "callgraph"@,
            ContextKind::Callers => "callers"@,
            ContextKind::CallChain => "call_chain"@,
        }
    }

    /// The name this want is asked for by, and the key it answers under.
    pub fn name(&self) -> (r: &'static str)
        ensures
            r@ == self.word(),
    {
        match self {
            ContextKind::FunctionAst => "function_ast",
            ContextKind::CilContext => "cil_context",
            ContextKind::ContractContext => "contract_context",
            ContextKind::LogicDeps => "logic_deps",
            ContextKind::PropertyContext => "property_context",
            ContextKind::RteObligations => "rte_obligations",
            ContextKind::CurrentAnnotations => "current_annotations",
            ContextKind::WriteEffects => "write_effects",
            ContextKind::LoopEffects => "loop_effects",
            ContextKind::Messages => "messages",
            ContextKind::Source => "source",
            ContextKind::Symbol => "symbol",
            ContextKind::MarkerAt => "marker_at",
            ContextKind::EvaValue => "eva_value",
            ContextKind::Callgraph => "callgraph",
            ContextKind::Callers => "callers",
            ContextKind::CallChain => "call_chain",
        }
    }
}

/// No two wants of a context answer under one key.
pub proof fn law_contexts_have_their_own_names(a: ContextKind, b: ContextKind)
    requires
        a.word() == b.word(),
    ensures
        a == b,
{
    reveal_strlit("function_ast");
    reveal_strlit("cil_context");
    reveal_strlit("contract_context");
    reveal_strlit("logic_deps");
    reveal_strlit("property_context");
    reveal_strlit("rte_obligations");
    reveal_strlit("current_annotations");
    reveal_strlit("write_effects");
    reveal_strlit("loop_effects");
    reveal_strlit("messages");
    reveal_strlit("source");
    reveal_strlit("symbol");
    reveal_strlit("marker_at");
    reveal_strlit("eva_value");
    reveal_strlit("callgraph");
    reveal_strlit("callers");
    reveal_strlit("call_chain");
    let (s, t) = (a.word(), b.word());
    assert(s.len() == t.len() && s[0] == t[0] && s[1] == t[1]);
    assert(s.len() > 6 ==> s[6] == t[6]);
}

/// What can be listed.
#[derive(Clone, Copy, PartialEq, Eq, Debug, Structural)]
pub enum ListKind {
    Files,
    Functions,
    Globals,
    Declarations,
    Sandboxes,
    Conclusions,
}

/// The ghost kinds an annotation can carry, in the order they are applied.
#[derive(Clone, Copy, PartialEq, Eq, Debug, Structural)]
pub enum GhostKind {
    GhostGlobal,
    GhostFormal,
    GhostLemmaFunction,
    GhostLoop,
    GhostStmt,
}

impl GhostKind {
    /// The tag a caller writes on an annotation of this kind.
    pub open spec fn word(self) -> Seq<char> {
        match self {
            GhostKind::GhostGlobal => "ghost_global"@,
            GhostKind::GhostFormal => "ghost_formal"@,
            GhostKind::GhostLemmaFunction => "ghost_lemma_function"@,
            GhostKind::GhostLoop => "ghost_loop"@,
            GhostKind::GhostStmt => "ghost_stmt"@,
        }
    }

    /// The tag a caller writes on an annotation of this kind.
    pub fn name(&self) -> (r: &'static str)
        ensures
            r@ == self.word(),
    {
        match self {
            GhostKind::GhostGlobal => "ghost_global",
            GhostKind::GhostFormal => "ghost_formal",
            GhostKind::GhostLemmaFunction => "ghost_lemma_function",
            GhostKind::GhostLoop => "ghost_loop",
            GhostKind::GhostStmt => "ghost_stmt",
        }
    }
}

/// No two ghost kinds are written with one tag.
pub proof fn law_ghosts_have_their_own_tags(a: GhostKind, b: GhostKind)
    requires
        a.word() == b.word(),
    ensures
        a == b,
{
    reveal_strlit("ghost_global");
    reveal_strlit("ghost_formal");
    reveal_strlit("ghost_lemma_function");
    reveal_strlit("ghost_loop");
    reveal_strlit("ghost_stmt");
    let (s, t) = (a.word(), b.word());
    assert(s.len() == t.len() && s[0] == t[0] && s[1] == t[1]);
    assert(s.len() > 6 ==> s[6] == t[6]);
}

/// The ghost kind that a tag names.
pub open spec fn ghost_of(tag: Seq<char>) -> Option<GhostKind> {
    if tag == "ghost_global"@ {
        Some(GhostKind::GhostGlobal)
    } else if tag == "ghost_formal"@ {
        Some(GhostKind::GhostFormal)
    } else if tag == "ghost_lemma_function"@ {
        Some(GhostKind::GhostLemmaFunction)
    } else if tag == "ghost_loop"@ {
        Some(GhostKind::GhostLoop)
    } else if tag == "ghost_stmt"@ {
        Some(GhostKind::GhostStmt)
    } else {
        None
    }
}

impl GhostKind {
    /// Recognises a kind by the tag a caller writes on an annotation.
    pub fn from_tag(tag: &str) -> (r: Option<GhostKind>)
        ensures
            r == ghost_of(tag@),
    {
        if same(tag, "ghost_global") {
            Some(GhostKind::GhostGlobal)
        } else if same(tag, "ghost_formal") {
            Some(GhostKind::GhostFormal)
        } else if same(tag, "ghost_lemma_function") {
            Some(GhostKind::GhostLemmaFunction)
        } else if same(tag, "ghost_loop") {
            Some(GhostKind::GhostLoop)
        } else if same(tag, "ghost_stmt") {
            Some(GhostKind::GhostStmt)
        } else {
            None
        }
    }
}

/// A tag names a kind exactly when it is the tag of that kind.
pub proof fn law_tag_and_kind_are_inverse(tag: Seq<char>, kind: GhostKind)
    ensures
        ghost_of(tag) == Some(kind) <==> tag == kind.word(),
{
    if tag == kind.word() {
        match ghost_of(tag) {
            Some(other) => {
                law_ghosts_have_their_own_tags(other, kind);
            },
            None => {},
        }
    }
}

// ---------------------------------------------------------------------------
// The parameters
// ---------------------------------------------------------------------------

/// What to try to parse, and under which flags.
#[derive(Debug, PartialEq, Eq)]
pub struct ParseSurfaceParams {
    /// C sources to try, as paths.
    pub files: Option<Vec<String>>,
    /// Directories that are searched for headers.
    pub include_paths: Option<Vec<String>>,
    /// Preprocessor definitions.
    pub defines: Option<Vec<String>>,
    /// Headers read ahead of every source.
    pub force_includes: Option<Vec<String>>,
    /// System directories that are searched for headers.
    pub isystem_paths: Option<Vec<String>>,
    /// Whether the default system directories are dropped.
    pub nostdinc: Option<bool>,
    /// The machine model.
    pub machdep: Option<String>,
    /// How much to report.
    pub detail: Option<Detail>,
}

/// What project to load, and under which flags.
#[derive(Debug, PartialEq)]
pub struct ReloadProjectParams {
    /// C sources; those that are loaded, where none are named.
    pub files: Option<Vec<String>>,
    /// Directories that are searched for headers.
    pub include_paths: Option<Vec<String>>,
    /// Preprocessor definitions.
    pub defines: Option<Vec<String>>,
    /// Headers read ahead of every source.
    pub force_includes: Option<Vec<String>>,
    /// System directories that are searched for headers.
    pub isystem_paths: Option<Vec<String>>,
    /// Whether the default system directories are dropped.
    pub nostdinc: Option<bool>,
    /// The machine model.
    pub machdep: Option<String>,
    /// How much to report.
    pub detail: Option<Detail>,
    /// The compilation database to take sources from.
    pub compilation_database: Option<String>,
    /// Whether runtime-error obligations are proved.
    pub rte: Option<bool>,
    /// What the build system proves each target under.
    pub verify_profiles: Option<Json>,
    /// Where the profiles came from.
    pub verify_profiles_source: Option<String>,
    /// The registered profile to load.
    pub verify_profile: Option<String>,
}

/// How the abstract interpreter runs.
#[derive(Debug, PartialEq, Eq)]
pub struct RunEvaParams {
    /// The precision profile.
    pub profile: Option<String>,
    /// The precision level.
    pub precision: Option<i32>,
    /// The entry function.
    pub main_function: Option<String>,
    /// How far loops are unrolled.
    pub slevel: Option<u32>,
    /// How large a set of integers is kept.
    pub ilevel: Option<u32>,
}

/// How runtime checks are compiled and run.
#[derive(Debug, PartialEq, Eq)]
pub struct RunEAcslParams {
    /// A driver to compile with the loaded files.
    pub driver: Option<String>,
    /// The arguments of the program.
    pub args: Option<Vec<String>>,
    /// The time that each step has.
    pub timeout_seconds: Option<u64>,
    /// The wrapper to use.
    pub tool: Option<String>,
    /// Whether the loaded program is instrumented rather than the files.
    pub use_current_ast: Option<bool>,
}

/// How the prover runs.
#[derive(Debug, Clone, PartialEq, Eq)]
pub struct RunWpParams {
    /// The functions to verify; all of them, where none are named.
    pub functions: Option<Vec<String>>,
    /// One prover to use.
    pub prover: Option<String>,
    /// Provers to retry with, each in a process of its own.
    pub provers: Option<Vec<String>>,
    /// The seconds that a prover has.
    pub timeout: Option<u32>,
    /// How many provers run at once.
    pub par: Option<u32>,
    /// The memory model.
    pub model: Option<String>,
    /// The properties to prove.
    pub prop: Option<String>,
    /// Whether smoke tests are run.
    pub smoke: Option<bool>,
    /// The mode of the proof cache.
    pub cache: Option<String>,
    /// Whether the queue is emptied instead.
    pub cancel: Option<bool>,
    /// How long the scheduler is waited for.
    pub drain_timeout_seconds: Option<u64>,
    /// Whether goals that timed out are tried once more.
    pub retry_unproved: Option<bool>,
    /// The profile to prove under.
    pub verify_profile: Option<String>,
}

/// One configuration of a check.
#[derive(Debug, Clone, PartialEq, Eq)]
pub struct CheckVariant {
    /// Its name in the result.
    pub label: Option<String>,
    /// Its preprocessor definitions.
    pub defines: Option<Vec<String>>,
    /// Its machine model.
    pub machdep: Option<String>,
    /// Its memory model.
    pub model: Option<String>,
}

/// What to check, and how.
#[derive(Debug, Clone, PartialEq, Eq)]
pub struct CheckParams {
    /// The analyses to run.
    pub want: Option<Vec<CheckAnalysis>>,
    /// C text to check.
    pub source: Option<String>,
    /// C sources to check.
    pub files: Option<Vec<String>>,
    /// The function to look at.
    pub function: Option<String>,
    /// Directories that are searched for headers.
    pub include_paths: Option<Vec<String>>,
    /// Preprocessor definitions.
    pub defines: Option<Vec<String>>,
    /// Headers read ahead of every source.
    pub force_includes: Option<Vec<String>>,
    /// System directories that are searched for headers.
    pub isystem_paths: Option<Vec<String>>,
    /// Whether the default system directories are dropped.
    pub nostdinc: Option<bool>,
    /// The machine model.
    pub machdep: Option<String>,
    /// The configurations to check in place of one.
    pub variants: Option<Vec<CheckVariant>>,
    /// The compilation database to take sources from.
    pub compilation_database: Option<String>,
    /// Whether runtime checks are generated first.
    pub rte: Option<bool>,
    /// How much to report.
    pub detail: Option<Detail>,
    /// The precision profile.
    pub profile: Option<String>,
    /// The profile to load and prove under.
    pub verify_profile: Option<String>,
    /// The precision level.
    pub precision: Option<i32>,
    /// How far loops are unrolled.
    pub slevel: Option<u32>,
    /// How large a set of integers is kept.
    pub ilevel: Option<u32>,
    /// One prover to use.
    pub prover: Option<String>,
    /// Provers to retry with.
    pub provers: Option<Vec<String>>,
    /// The seconds that a prover has.
    pub timeout: Option<u32>,
    /// How many provers run at once.
    pub par: Option<u32>,
    /// The memory model.
    pub model: Option<String>,
    /// The properties to prove.
    pub prop: Option<String>,
    /// Whether goals that timed out are tried once more.
    pub retry_unproved: Option<bool>,
}

/// What to read from the property table.
#[derive(Debug, PartialEq, Eq)]
pub struct GetWpGoalsParams {
    /// What to read.
    pub want: Option<Vec<FindingKind>>,
    /// The function to look at.
    pub function: Option<String>,
    /// The status to look for.
    pub status: Option<String>,
    /// The kind of alarm to look for.
    pub alarm_kind: Option<String>,
    /// The property to investigate.
    pub marker: Option<String>,
    /// How far to investigate.
    pub depth: Option<String>,
    /// The call stack whose values are read.
    pub callstack: Option<u32>,
    /// Whether printed obligations are added.
    pub include_wp_print: Option<bool>,
    /// Whether Why3 tasks are added.
    pub include_why3_dump: Option<bool>,
    /// Whether counter examples are added.
    pub include_counter_examples: Option<bool>,
    /// The earlier run to compare with.
    pub since: Option<String>,
}

/// Which stored evidence to summarize.
#[derive(Debug, PartialEq, Eq)]
pub struct ProofCoverageParams {
    /// The target to look at.
    pub verify_profile: Option<String>,
    /// How much to report.
    pub detail: Option<Detail>,
}

/// What one step over a program is told.
#[derive(Debug, PartialEq, Eq)]
pub struct VerifyProgramStepParams {
    /// The functions that are being worked on.
    pub in_progress: Option<Vec<String>>,
    /// Whether the project is locked.
    pub lock_project: Option<bool>,
}

/// What to list.
#[derive(Debug, PartialEq, Eq)]
pub struct ListParams {
    /// What is listed.
    pub kind: ListKind,
    /// The status of the conclusions to list.
    pub status: Option<String>,
    /// The function whose conclusion is shown.
    pub function: Option<String>,
}

/// Which function to propose annotations for.
#[derive(Debug, PartialEq, Eq)]
pub struct ProposeAnnotationsParams {
    /// The function.
    pub function: String,
}

/// Which context to fetch.
#[derive(Debug, PartialEq, Eq)]
pub struct ContextParams {
    /// The function to look at.
    pub function: Option<String>,
    /// The property to look at.
    pub property_marker: Option<String>,
    /// What to fetch.
    pub want: Vec<ContextKind>,
    /// The file to write to.
    pub output: Option<String>,
    /// The marker whose values are read.
    pub marker: Option<String>,
    /// The call stack whose values are read.
    pub callstack: Option<u32>,
    /// The file of a position.
    pub file: Option<String>,
    /// The line of a position, from one on.
    pub line: Option<u32>,
    /// The column of a position, from zero on.
    pub column: Option<u32>,
    /// Which way a call chain is walked.
    pub direction: Option<String>,
    /// How far a call chain is walked.
    pub max_depth: Option<u32>,
    /// Where a call chain ends.
    pub stop_at: Option<Vec<String>>,
}

/// An annotation to add.
#[derive(Debug, Clone, PartialEq, Eq)]
pub struct AddAnnotationParams {
    /// The function.
    pub function: String,
    /// Whether it is a contract or stands at a statement.
    pub kind: String,
    /// Its text.
    pub acsl: String,
    /// Its statement.
    pub stmt: Option<i64>,
    /// A label of the caller.
    pub user_label: Option<String>,
}

/// What became of one ghost insertion.
#[derive(Debug, PartialEq)]
pub struct GhostResult {
    /// Its place among the annotations of the call.
    pub index: usize,
    /// Its kind.
    pub kind: String,
    /// What the plug-in answered.
    pub result: Json,
}

/// A ghost global to insert.
#[derive(Debug, PartialEq, Eq)]
pub struct InsertGhostGlobalParams {
    /// Its name.
    pub name: String,
    /// Its type.
    pub c_type: Option<String>,
    /// Its initial value.
    pub expr: Option<String>,
}

/// A ghost formal parameter to insert.
#[derive(Debug, PartialEq, Eq)]
pub struct InsertGhostFormalParams {
    /// Its name.
    pub name: String,
    /// Its type.
    pub c_type: Option<String>,
    /// Where it is inserted.
    pub position: Option<String>,
}

/// A ghost lemma function to insert.
#[derive(Debug, PartialEq, Eq)]
pub struct InsertGhostLemmaFunctionParams {
    /// Its name.
    pub name: String,
    /// Its parameter.
    pub param: String,
    /// The type of its parameter.
    pub param_type: Option<String>,
    /// What it requires.
    pub precondition: String,
    /// What decreases.
    pub measure: String,
    /// What it assigns.
    pub assigns: String,
    /// What it ensures.
    pub postcondition: String,
}

/// A ghost loop to insert.
#[derive(Debug, PartialEq, Eq)]
pub struct InsertGhostLoopParams {
    /// The statement it is inserted before.
    pub stmt: i64,
    /// Its counter.
    pub name: String,
    /// The type of its counter.
    pub c_type: Option<String>,
    /// The first value of its counter.
    pub init: Option<String>,
    /// The bound of its counter.
    pub stop: String,
    /// The step of its counter.
    pub step: Option<String>,
    /// What holds in it.
    pub loop_invariant: String,
    /// What it assigns.
    pub assigns: String,
    /// What decreases.
    pub variant: String,
    /// What holds after it.
    pub assertion: Option<String>,
}

/// A ghost statement to insert.
#[derive(Debug, PartialEq, Eq)]
pub struct InsertGhostStmtParams {
    /// The statement it is inserted before.
    pub stmt: i64,
    /// What it does.
    pub op: String,
    /// The variable or label.
    pub name: String,
    /// The type of a declaration.
    pub c_type: Option<String>,
    /// What is assigned.
    pub expr: String,
}

/// What has been concluded of a function.
#[derive(Debug, PartialEq)]
pub struct StoreFunctionConclusionParams {
    /// The function.
    pub function: String,
    /// How it stands.
    pub status: Option<String>,
    /// The annotations that were kept.
    pub specs: Option<Vec<Json>>,
    /// Notes.
    pub notes: Option<String>,
    /// A summary of the goals.
    pub wp_summary: Option<Json>,
    /// The receipt of the run.
    pub proof_receipt: Option<Json>,
    /// The hash of the receipt of the run.
    pub proof_receipt_sha256: Option<String>,
    /// The target this is evidence about.
    pub verify_profile: Option<String>,
    /// The functions it calls.
    pub callees: Option<Vec<String>>,
}

/// What a self check does.
#[derive(Debug, PartialEq, Eq)]
pub struct SelfCheckParams {
    /// Whether the two fixtures are run.
    pub canary: Option<bool>,
}

/// The sandbox to create.
#[derive(Debug, PartialEq, Eq)]
pub struct CreateSandboxParams {
    /// The function to copy.
    pub function: String,
    /// The name of the experiment.
    pub experiment_id: Option<String>,
}

/// The sandbox to delete.
#[derive(Debug, PartialEq, Eq)]
pub struct DeleteSandboxParams {
    /// Its name.
    pub sandbox_name: String,
}

/// The annotations to inject.
#[derive(Debug, PartialEq)]
pub struct InjectAllAnnotationsParams {
    /// The function.
    pub function: Option<String>,
    /// The sandbox.
    pub sandbox_name: Option<String>,
    /// Every clause, tagged by its kind.
    pub annotations: Option<Vec<Json>>,
    /// The proposed globals.
    pub proposed_globals: Option<Vec<Json>>,
    /// The proposed behaviors.
    pub proposed_behaviors: Option<Vec<Json>>,
    /// The proposed requires.
    pub proposed_requires: Option<Vec<Json>>,
    /// The proposed ensures.
    pub proposed_ensures: Option<Vec<Json>>,
    /// The proposed assigns.
    pub proposed_assigns: Option<Vec<Json>>,
    /// The proposed asserts.
    pub proposed_asserts: Option<Vec<Json>>,
    /// The proposed loop annots.
    pub proposed_loop_annots: Option<Vec<Json>>,
    /// The proposed complete behaviors.
    pub proposed_complete_behaviors: Option<Vec<Json>>,
    /// The proposed disjoint behaviors.
    pub proposed_disjoint_behaviors: Option<Vec<Json>>,
    /// When the function is proposed to terminate.
    pub proposed_terminates: Option<Json>,
    /// What is proposed to hold at an exit.
    pub proposed_exits: Option<Json>,
    /// What is proposed to decrease.
    pub proposed_decreases: Option<Json>,
    /// Whether the clauses are only validated.
    pub dry_run: bool,
}

// ---------------------------------------------------------------------------
// What is answered about annotations
// ---------------------------------------------------------------------------

/// Why an annotation was not injected, and so how it is to be repaired.
#[derive(Clone, Copy, PartialEq, Eq, Debug, Structural)]
pub enum FailureType {
    /// The text does not parse.
    SyntaxError,
    /// The text names what is not there.
    ProposedSelfReferential,
    /// A contract names a local of its function.
    ProposedLocalVarInFunspec,
    /// Anything else: a type error, a duplicate, a clause that means nothing.
    ProposedError,
}

/// An annotation that was injected.
#[derive(Debug, PartialEq)]
pub struct InjectedAnnotationEntry {
    /// Its generated label.
    pub hash_label: String,
    /// The label of the caller.
    pub user_label: Option<String>,
    /// Whether it is global, a contract, or stands at a statement.
    pub kind: String,
    /// Its whole text.
    pub acsl: String,
    /// Its statement.
    pub stmt_id: Option<i64>,
    /// The proposal it comes from.
    pub derived_from: String,
    /// Where it comes from.
    pub source: String,
    /// What it is for.
    pub purpose: String,
    /// What it helps to prove.
    pub proof_target: Option<String>,
    /// How its proof stands.
    pub wp_status: Option<Json>,
    /// How long its proof took.
    pub wp_time_ms: Option<u64>,
    /// What proved it.
    pub wp_prover: Option<String>,
}

/// An annotation that was not injected.
#[derive(Debug, Clone, PartialEq, Eq)]
pub struct InjectionFailure {
    /// Why.
    pub failure_type: FailureType,
    /// The proposal.
    pub proposed_path: String,
    /// Its text.
    pub acsl_text: String,
    /// What Frama-C said.
    pub frama_c_error: String,
}

/// How many annotations were injected.
#[derive(Debug, Clone, Copy, PartialEq, Eq, Structural)]
pub struct InjectionSummary {
    /// How many were tried.
    pub total_attempted: usize,
    /// How many were injected.
    pub successful_count: usize,
    /// How many were not.
    pub failure_count: usize,
}

/// A difference between two sets of annotations.
#[derive(Debug, Clone, PartialEq, Eq)]
pub struct AnnotationEquivalenceMismatch {
    /// What differs.
    pub kind: String,
    /// What was expected.
    pub expected: Vec<String>,
    /// What is there.
    pub actual: Vec<String>,
}

/// How the annotations of a sandbox and of its function compare.
#[derive(Debug, Clone, PartialEq, Eq)]
pub struct AnnotationEquivalence {
    /// How they compare.
    pub status: String,
    /// The sandbox.
    pub sandbox_name: String,
    /// The function.
    pub function: String,
    /// How many agree.
    pub matched_count: usize,
    /// Where they differ.
    pub mismatches: Vec<AnnotationEquivalenceMismatch>,
    /// The source of the sandbox.
    pub sandbox_source_excerpt: Option<String>,
    /// The source of the function.
    pub main_source_excerpt: Option<String>,
}

/// What became of the annotations of a call.
#[derive(Debug, PartialEq)]
pub struct InjectAllAnnotationsSandboxResponse {
    /// How it went.
    pub status: String,
    /// What was injected.
    pub successful: Vec<InjectedAnnotationEntry>,
    /// What was not.
    pub failures: Vec<InjectionFailure>,
    /// The ghost insertions, in order.
    pub ghosts: Vec<GhostResult>,
    /// The counts.
    pub summary: InjectionSummary,
    /// The comparison with the sandbox.
    pub equivalence: Option<AnnotationEquivalence>,
}

/// Where a clause would be inserted.
#[derive(Debug, Clone, PartialEq, Eq)]
pub struct AnnotationValidationTarget {
    /// The function.
    pub function: String,
    /// Whether it is a contract or stands at a statement.
    pub kind: String,
    /// The statement.
    pub stmt_id: Option<i64>,
}

/// What validation says of a clause.
#[derive(Debug, Clone, PartialEq, Eq)]
pub struct AnnotationValidationClause {
    /// Whether it is valid.
    pub valid: bool,
    /// The proposal.
    pub proposed_path: String,
    /// Its place.
    pub index: Option<usize>,
    /// Where it would be inserted.
    pub insertion_target: AnnotationValidationTarget,
    /// Its text.
    pub acsl_text: String,
    /// The label of the caller.
    pub user_label: Option<String>,
    /// What it is for.
    pub purpose: String,
    /// Why it is not valid.
    pub failure_type: Option<FailureType>,
    /// What Frama-C said.
    pub frama_c_error: Option<String>,
}

/// What validation says of the annotations of a call.
#[derive(Debug, PartialEq)]
pub struct DryRunInjectionResponse {
    /// How it went.
    pub status: String,
    /// Whether nothing was changed.
    pub dry_run: bool,
    /// The clauses.
    pub clauses: Vec<AnnotationValidationClause>,
    /// Those that are not valid.
    pub failures: Vec<InjectionFailure>,
    /// The ghost insertions, as far as they can be judged.
    pub ghosts: Vec<GhostResult>,
    /// Whether the clauses were judged without the ghosts of the call.
    pub ghosts_not_applied: bool,
    /// The counts.
    pub summary: InjectionSummary,
}

/// What is answered when a ghost entry did not land.
#[derive(Debug, PartialEq)]
pub struct GhostOnlyInjectionResponse {
    /// How it went.
    pub status: String,
    /// Whether nothing was changed.
    pub dry_run: bool,
    /// Always false: the clauses were never tried.
    pub clauses_attempted: bool,
    /// The ghost insertions.
    pub ghosts: Vec<GhostResult>,
    /// Those that did not land.
    pub failures: Vec<InjectionFailure>,
    /// The counts.
    pub summary: InjectionSummary,
}

/// What an ordering of the functions is told: nothing.
#[derive(Debug, PartialEq, Eq)]
pub struct ComputeTopologicalOrderParams {
}

/// What the scheduler of functions is told.
#[derive(Debug, PartialEq, Eq)]
pub struct GetReadyFunctionsParams {
    /// The functions whose contracts can be used.
    pub done: Vec<String>,
    /// The functions that are being worked on.
    pub in_progress: Vec<String>,
}

/// Whether a message says that a name is not there.
pub open spec fn names_unknown(lower: Seq<char>) -> bool {
    occurs(lower, "unbound"@) || occurs(lower, "no such"@) || occurs(lower, "not found"@) || occurs(
        lower,
        "unknown identifier"@,
    ) || occurs(lower, "undeclared type"@) || occurs(lower, "reference to unknown"@) || occurs(
        lower,
        "cannot find"@,
    )
}

/// Whether a message says that a text does not parse.
pub open spec fn says_syntax(lower: Seq<char>) -> bool {
    occurs(lower, "syntax error"@) || occurs(lower, "parse error"@) || occurs(lower, "unexpected"@)
        || occurs(lower, "lexeme"@)
}

/// Why an annotation was not injected, by a message in lower case. The order matters: a local of
/// the function is also a name that is not there.
pub open spec fn failure_of(lower: Seq<char>) -> FailureType {
    if occurs(lower, "function local"@) {
        FailureType::ProposedLocalVarInFunspec
    } else if names_unknown(lower) {
        FailureType::ProposedSelfReferential
    } else if says_syntax(lower) {
        FailureType::SyntaxError
    } else {
        FailureType::ProposedError
    }
}

/// Why an annotation was not injected, by a message in lower case.
pub fn classify_lower_failure(lower: &str) -> (r: FailureType)
    ensures
        r == failure_of(lower@),
{
    if contains(lower, "function local") {
        FailureType::ProposedLocalVarInFunspec
    } else if contains(lower, "unbound") || contains(lower, "no such") || contains(
        lower,
        "not found",
    ) || contains(lower, "unknown identifier") || contains(lower, "undeclared type") || contains(
        lower,
        "reference to unknown",
    ) || contains(lower, "cannot find") {
        FailureType::ProposedSelfReferential
    } else if contains(lower, "syntax error") || contains(lower, "parse error") || contains(
        lower,
        "unexpected",
    ) || contains(lower, "lexeme") {
        FailureType::SyntaxError
    } else {
        FailureType::ProposedError
    }
}

/// Why an annotation was not injected, by what Frama-C said.
pub fn classify_failure(error: &str) -> (r: FailureType)
    ensures
        r == failure_of(unicode_lowercase(error@)),
{
    classify_lower_failure(lowercase(error).as_str())
}

// ---------------------------------------------------------------------------
// What holds of reading a request
// ---------------------------------------------------------------------------

/// A switch is read as it is, or as a word whatever white space is around it; nothing and a blank
/// word set nothing, and anything else is refused.
pub proof fn law_a_switch_is_read(b: bool, s: Seq<char>, items: Seq<JsonView>)
    ensures
        flag_read(Some(JsonView::Bool(b))) == Ok::<_, Seq<char>>(Some(b)),
        trim_spec(s) == "true"@ ==> flag_read(Some(JsonView::Str(s))) == Ok::<_, Seq<char>>(
            Some(true),
        ),
        trim_spec(s) == "false"@ ==> flag_read(Some(JsonView::Str(s))) == Ok::<_, Seq<char>>(
            Some(false),
        ),
        trim_spec(s).len() == 0 ==> flag_read(Some(JsonView::Str(s))) == Ok::<
            Option<bool>,
            Seq<char>,
        >(None),
        trim_spec(s).len() > 0 && trim_spec(s) != "true"@ && trim_spec(s) != "false"@ ==> flag_read(
            Some(JsonView::Str(s)),
        ) is Err,
        flag_read(None) == Ok::<Option<bool>, Seq<char>>(None),
        flag_read(Some(JsonView::Null)) == Ok::<Option<bool>, Seq<char>>(None),
        flag_read(Some(JsonView::Array(items))) is Err,
{
    reveal_strlit("");
    reveal_strlit("true");
    reveal_strlit("false");
    assert("true"@.len() == 4 && "false"@.len() == 5 && ""@.len() == 0);
    if trim_spec(s).len() == 0 {
        assert(trim_spec(s) =~= ""@);
    }
}

/// A list is read as it is, or out of a text that holds one; nothing and a blank text are no list,
/// and anything else is refused, also where a list is required.
pub proof fn law_a_list_is_read(items: Seq<JsonView>, s: Seq<char>, b: bool, v: JsonView)
    ensures
        list_read(Some(JsonView::Array(items))) == Ok::<_, Seq<char>>(Some(items)),
        trim_spec(s).len() > 0 && json_parse(s) == Some(JsonView::Array(items)) ==> list_read(
            Some(JsonView::Str(s)),
        ) == Ok::<_, Seq<char>>(Some(items)),
        trim_spec(s).len() > 0 && json_parse(s) == Some(v) && !(v is Array) ==> list_read(
            Some(JsonView::Str(s)),
        ) == Err::<Option<Seq<JsonView>>, Seq<char>>(
            "field passed as string but parsed JSON is not an array"@,
        ),
        trim_spec(s).len() > 0 && json_parse(s) is None ==> list_read(Some(JsonView::Str(s)))
            == Err::<Option<Seq<JsonView>>, Seq<char>>(
            "field passed as string but not valid JSON array: "@ + json_parse_error(s),
        ),
        trim_spec(s).len() == 0 ==> list_read(Some(JsonView::Str(s))) == Ok::<
            Option<Seq<JsonView>>,
            Seq<char>,
        >(None),
        list_read(None) == Ok::<Option<Seq<JsonView>>, Seq<char>>(None),
        list_read(Some(JsonView::Bool(b))) == Err::<Option<Seq<JsonView>>, Seq<char>>(
            "expected array or stringified JSON array, got "@ + "bool"@,
        ),
        required_list_read(Some(JsonView::Array(items))) == Ok::<_, Seq<char>>(items),
        required_list_read(None) == Err::<Seq<JsonView>, Seq<char>>(
            "expected array or stringified JSON array"@,
        ),
        required_list_read(Some(JsonView::Bool(b))) is Err,
        trim_spec(s).len() > 0 && json_parse(s) == Some(JsonView::Array(items))
            ==> required_list_read(Some(JsonView::Str(s))) == Ok::<_, Seq<char>>(items),
{
}

/// A value is read as it is, and a text as the value it holds; nothing and a blank text are none.
pub proof fn law_a_value_is_read(s: Seq<char>, v: JsonView, b: bool, items: Seq<JsonView>)
    ensures
        value_read(Some(JsonView::Bool(b))) == Ok::<_, Seq<char>>(Some(JsonView::Bool(b))),
        value_read(Some(JsonView::Array(items))) == Ok::<_, Seq<char>>(
            Some(JsonView::Array(items)),
        ),
        trim_spec(s).len() > 0 && json_parse(s) == Some(v) ==> value_read(Some(JsonView::Str(s)))
            == Ok::<_, Seq<char>>(Some(v)),
        trim_spec(s).len() > 0 && json_parse(s) is None ==> value_read(Some(JsonView::Str(s)))
            == Err::<Option<JsonView>, Seq<char>>(
            "field passed as string but not valid JSON: "@ + json_parse_error(s),
        ),
        trim_spec(s).len() == 0 ==> value_read(Some(JsonView::Str(s))) == Ok::<
            Option<JsonView>,
            Seq<char>,
        >(None),
        value_read(None) == Ok::<Option<JsonView>, Seq<char>>(None),
        value_read(Some(JsonView::Null)) == Ok::<Option<JsonView>, Seq<char>>(None),
{
}

/// A failure is told by its message: a local of the function first, then a name that is not there,
/// then what does not parse; a message that says none of these is an error of what was proposed.
pub proof fn law_a_failure_is_told_by_its_message(t: Seq<char>)
    ensures
        occurs(t, "function local"@) ==> failure_of(t) == FailureType::ProposedLocalVarInFunspec,
        !occurs(t, "function local"@) && (occurs(t, "unbound"@) || occurs(t, "no such"@) || occurs(
            t,
            "not found"@,
        ) || occurs(t, "unknown identifier"@) || occurs(t, "undeclared type"@) || occurs(
            t,
            "reference to unknown"@,
        ) || occurs(t, "cannot find"@)) ==> failure_of(t) == FailureType::ProposedSelfReferential,
        ({
            let plain = !occurs(t, "function local"@) && !occurs(t, "unbound"@) && !occurs(
                t,
                "no such"@,
            ) && !occurs(t, "not found"@) && !occurs(t, "unknown identifier"@) && !occurs(
                t,
                "undeclared type"@,
            ) && !occurs(t, "reference to unknown"@) && !occurs(t, "cannot find"@);
            let syntax = occurs(t, "syntax error"@) || occurs(t, "parse error"@) || occurs(
                t,
                "unexpected"@,
            ) || occurs(t, "lexeme"@);
            &&& plain && syntax ==> failure_of(t) == FailureType::SyntaxError
            &&& plain && !syntax ==> failure_of(t) == FailureType::ProposedError
        }),
{
}

} // verus!
