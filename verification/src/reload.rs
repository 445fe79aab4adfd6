//! Loading a project: which files, under which options, and what is answered.

use crate::error::{ToolError, ToolErrorView};
use crate::json::{lemma_take_next, models, Json, JsonView};
use crate::markers::{kind_of_marker, line_view, marker_kind, marker_stmt_id, stmt_id};
use crate::options::{options_complaint, validate_project_options, OptionsView, ProjectLoadOptions};
use crate::parselog::{
    ast_parse_diagnostics, diagnostics, no_parse_log, parse_log_unavailable, unreadable_parse_log,
    window,
};
use crate::outside::utf8_lossy;
use crate::surface::{entries_of, or_empty};
use crate::text::{cat4, opt_string, opt_text, owned, same, texts};
use crate::types::{Detail, ListKind, ListParams, ReloadProjectParams};
use vstd::prelude::*;

verus! {

// ---------------------------------------------------------------------------
// What is loaded
// ---------------------------------------------------------------------------

/// What is said of a reload while the project is locked.
pub const RELOAD_LOCKED: &'static str =
    "Project is locked. reload_project is blocked during Phase 2 to prevent annotation loss. If you are verifying in a sandbox, do NOT call reload_project; use create_sandbox or delete_sandbox instead. Call verify_program_step with lock_project=false first if this is the final main-project gate.";

/// Why a reload is refused before anything is asked of Frama-C.
pub enum ReloadRefusal {
    /// The project is locked.
    Locked,
    /// The options cannot be handed to Frama-C.
    Invalid(ToolError),
}

/// What a reload has been asked to do.
pub struct ReloadRequest {
    pub files: Option<Vec<String>>,
    pub rte: bool,
    pub options: ProjectLoadOptions,
    pub detail: Detail,
}

/// The load options that a reload names.
pub open spec fn reload_options(p: ReloadProjectParams) -> OptionsView {
    OptionsView {
        include_paths: entries_of(p.include_paths),
        isystem_paths: entries_of(p.isystem_paths),
        nostdinc: p.nostdinc == Some(true),
        defines: entries_of(p.defines),
        force_includes: entries_of(p.force_includes),
        machdep: opt_string(p.machdep),
        compilation_database: opt_string(p.compilation_database),
    }
}

/// The files of an optional list, where there is one.
pub open spec fn opt_texts(o: Option<Vec<String>>) -> Option<Seq<Seq<char>>> {
    match o {
        Some(v) => Some(texts(v@)),
        None => None,
    }
}

/// Whether a reload may go on, and what it has been asked to do. Runtime errors are proved only
/// where that is asked for, and functions are summarized unless they are asked for in full.
pub fn reload_request(locked: bool, params: ReloadProjectParams) -> (r: Result<
    ReloadRequest,
    ReloadRefusal,
>)
    ensures
        match r {
            Ok(request) => {
                &&& !locked
                &&& options_complaint(reload_options(params)) is None
                &&& opt_texts(request.files) == opt_texts(params.files)
                &&& request.rte == (params.rte == Some(true))
                &&& request.options@ == reload_options(params)
                &&& request.detail == (match params.detail {
                    Some(d) => d,
                    None => Detail::Summary,
                })
            },
            Err(ReloadRefusal::Locked) => locked,
            Err(ReloadRefusal::Invalid(e)) => {
                &&& !locked
                &&& options_complaint(reload_options(params)) is Some
                &&& e@ == ToolErrorView::invalid(options_complaint(reload_options(params))->0)
            },
        },
{
    if locked {
        return Err(ReloadRefusal::Locked);
    }
    let rte = match params.rte {
        Some(b) => b,
        None => false,
    };
    let detail = match params.detail {
        Some(d) => d,
        None => Detail::Summary,
    };
    let options = ProjectLoadOptions {
        include_paths: or_empty(params.include_paths),
        isystem_paths: or_empty(params.isystem_paths),
        nostdinc: matches!(params.nostdinc, Some(true)),
        defines: or_empty(params.defines),
        force_includes: or_empty(params.force_includes),
        machdep: params.machdep,
        compilation_database: params.compilation_database,
    };
    match validate_project_options(&options) {
        Ok(_) => Ok(ReloadRequest { files: params.files, rte, options, detail }),
        Err(e) => Err(ReloadRefusal::Invalid(e)),
    }
}

/// What is known of the process that holds the project.
pub enum ClientState {
    /// There is none.
    Absent,
    /// Its transport is dead; these files were loaded last.
    Poisoned { cached: Vec<String> },
    /// It answers.
    Live,
}

/// Where the files of a reload come from.
pub enum FileChoice {
    /// They are these.
    Given(Vec<String>),
    /// They are listed in a compilation database.
    FromDatabase(String),
    /// The process knows them.
    AskClient,
    /// The transport is dead and no files are known.
    Poisoned(ToolError),
    /// No project is loaded.
    NotLoaded,
}

/// Where the files of a reload come from, as a mathematical object.
pub enum ChoiceView {
    Given(Seq<Seq<char>>),
    FromDatabase(Seq<char>),
    AskClient,
    Poisoned(ToolErrorView),
    NotLoaded,
}

impl View for FileChoice {
    type V = ChoiceView;

    open spec fn view(&self) -> ChoiceView {
        match self {
            FileChoice::Given(v) => ChoiceView::Given(texts(v@)),
            FileChoice::FromDatabase(d) => ChoiceView::FromDatabase(d@),
            FileChoice::AskClient => ChoiceView::AskClient,
            FileChoice::Poisoned(e) => ChoiceView::Poisoned(e@),
            FileChoice::NotLoaded => ChoiceView::NotLoaded,
        }
    }
}

/// What is said when the transport is dead and no files are known.
pub const POISONED: &'static str =
    "the Frama-C transport is poisoned and no file list is cached; pass files explicitly to reload_project to recover";

/// What is said when the transport is dead and no files are known.
pub open spec fn poisoned_error() -> ToolErrorView {
    ToolErrorView::internal_with(
        POISONED@,
        JsonView::object().with("kind"@, JsonView::Str("TransportPoisoned"@)).with(
            "retryable"@,
            JsonView::Bool(true),
        ).with(
            "suggestion"@,
            JsonView::object().with("tool"@, JsonView::Str("reload_project"@)).with(
                "args_example"@,
                JsonView::object().with(
                    "files"@,
                    JsonView::Array(seq![JsonView::Str("/path/to/source.c"@)]),
                ),
            ),
        ),
    )
}

/// Where the files of a reload come from: those that are named, else those of the compilation
/// database, else those that are loaded. A dead transport cannot be asked, and the files that were
/// loaded last stand in for its answer.
pub open spec fn files_chosen(
    files: Option<Seq<Seq<char>>>,
    database: Option<Seq<char>>,
    client: ClientState,
) -> ChoiceView {
    match files {
        Some(v) => ChoiceView::Given(v),
        None => match database {
            Some(d) => ChoiceView::FromDatabase(d),
            None => match client {
                ClientState::Absent => ChoiceView::NotLoaded,
                ClientState::Poisoned { cached } => if cached@.len() == 0 {
                    ChoiceView::Poisoned(poisoned_error())
                } else {
                    ChoiceView::Given(texts(cached@))
                },
                ClientState::Live => ChoiceView::AskClient,
            },
        },
    }
}

/// Where the files of a reload come from.
pub fn choose_files(
    files: Option<Vec<String>>,
    database: &Option<String>,
    client: ClientState,
) -> (r: FileChoice)
    ensures
        r@ == files_chosen(opt_texts(files), opt_string(*database), client),
{
    match files {
        Some(v) => FileChoice::Given(v),
        None => match database {
            Some(d) => FileChoice::FromDatabase(owned(d.as_str())),
            None => match client {
                ClientState::Absent => FileChoice::NotLoaded,
                ClientState::Poisoned { cached } => {
                    if cached.len() == 0 {
                        FileChoice::Poisoned(
                            ToolError::internal_with(
                                owned(POISONED),
                                Json::object().with("kind", Json::str("TransportPoisoned")).with(
                                    "retryable",
                                    Json::Bool(true),
                                ).with(
                                    "suggestion",
                                    Json::object().with("tool", Json::str("reload_project")).with(
                                        "args_example",
                                        Json::object().with(
                                            "files",
                                            Json::list1(Json::str("/path/to/source.c")),
                                        ),
                                    ),
                                ),
                            ),
                        )
                    } else {
                        FileChoice::Given(cached)
                    }
                },
                ClientState::Live => FileChoice::AskClient,
            },
        },
    }
}

/// The texts among some values.
pub open spec fn text_items(s: Seq<JsonView>) -> Seq<Seq<char>>
    decreases s.len(),
{
    if s.len() == 0 {
        Seq::empty()
    } else {
        match s.last() {
            JsonView::Str(t) => text_items(s.drop_last()).push(t),
            _ => text_items(s.drop_last()),
        }
    }
}

/// The texts of an array, and none where there is no array.
pub open spec fn listed_texts(reply: JsonView) -> Seq<Seq<char>> {
    match reply.as_list() {
        Some(items) => text_items(items),
        None => Seq::empty(),
    }
}

/// The files that Frama-C says are loaded.
pub fn loaded_files(reply: &Json) -> (r: Vec<String>)
    ensures
        texts(r@) == listed_texts(reply@),
{
    let mut out: Vec<String> = Vec::new();
    assert(texts(out@) =~= Seq::empty());
    match reply.as_list() {
        Some(items) => {
            let ghost all = models(items@);
            let mut i: usize = 0;
            assert(all.subrange(0, 0) =~= Seq::empty());
            while i < items.len()
                invariant
                    i <= items@.len(),
                    all == models(items@),
                    texts(out@) == text_items(all.subrange(0, i as int)),
                decreases items@.len() - i,
            {
                proof {
                    lemma_take_next(all, i as int);
                    assert(all[i as int] == items@[i as int]@);
                }
                match items[i].as_text() {
                    Some(t) => {
                        let ghost before = out@;
                        let o = owned(t);
                        out.push(o);
                        assert(texts(out@) =~= texts(before).push(o@));
                    },
                    None => {},
                }
                i = i + 1;
            }
            assert(all.subrange(0, i as int) =~= all);
        },
        None => {},
    }
    out
}

// ---------------------------------------------------------------------------
// What the parse said
// ---------------------------------------------------------------------------

/// What is at hand of the record of a parse.
pub enum ParseRecord {
    /// The process is gone.
    NoProcess,
    /// It was made before.
    Cached(Json),
    /// It can be made of a log up to an offset, for a process that runs in a directory.
    Log { bytes: Vec<u8>, end: u64, cwd: String },
    /// The log could not be read.
    Unreadable { path: String, error: String },
}

/// The record of a parse, and whether it is kept. A record that could not be made is not kept: the
/// next call may well read the log.
pub open spec fn parse_record(record: ParseRecord) -> (JsonView, bool) {
    match record {
        ParseRecord::NoProcess => (no_parse_log("the Frama-C process is gone"@), false),
        ParseRecord::Cached(v) => (v@, false),
        ParseRecord::Log { bytes, end, cwd } => (
            diagnostics(utf8_lossy(window(bytes@, end as int)), cwd@),
            true,
        ),
        ParseRecord::Unreadable { path, error } => (
            no_parse_log("cannot read the Frama-C stdout log at "@ + path@ + ": "@ + error@),
            false,
        ),
    }
}

/// The record of a parse, and whether it is kept.
pub fn parse_diagnostics(record: ParseRecord) -> (r: (Json, bool))
    ensures
        (r.0@, r.1) == parse_record(record),
{
    match record {
        ParseRecord::NoProcess => (parse_log_unavailable("the Frama-C process is gone"), false),
        ParseRecord::Cached(v) => (v, false),
        ParseRecord::Log { bytes, end, cwd } => (
            ast_parse_diagnostics(bytes.as_slice(), end, cwd.as_str()),
            true,
        ),
        ParseRecord::Unreadable { path, error } => (
            unreadable_parse_log(path.as_str(), error.as_str()),
            false,
        ),
    }
}

// ---------------------------------------------------------------------------
// Whether the reload took
// ---------------------------------------------------------------------------

/// What is said of a request that failed while a reload was checked.
pub open spec fn health_error(request: Seq<char>, error: Seq<char>) -> ToolErrorView {
    ToolErrorView::internal_with(
        "reload health check failed at "@ + request + ": "@ + error,
        JsonView::object().with("kind"@, JsonView::Str("ReloadHealthCheckFailed"@)).with(
            "request"@,
            JsonView::Str(request),
        ).with("message"@, JsonView::Str(error)).with("retryable"@, JsonView::Bool(true)),
    )
}

/// What is said of a request that failed while a reload was checked.
pub fn reload_health_error(request: &str, error: &str) -> (r: ToolError)
    ensures
        r@ == health_error(request@, error@),
{
    ToolError::internal_with(
        cat4("reload health check failed at ", request, ": ", error),
        Json::object().with("kind", Json::str("ReloadHealthCheckFailed")).with(
            "request",
            Json::str(request),
        ).with("message", Json::str(error)).with("retryable", Json::Bool(true)),
    )
}

/// How many elements an array has, and zero for any other value.
pub open spec fn list_len(v: JsonView) -> int {
    match v.as_list() {
        Some(items) => items.len() as int,
        None => 0,
    }
}

/// The requests that a reload is checked with.
pub open spec fn health_requests() -> JsonView {
    JsonView::object().with("get_files"@, JsonView::Str("kernel.ast.getFiles"@)).with(
        "reload_functions"@,
        JsonView::Str("kernel.ast.reloadFunctions"@),
    ).with("fetch_functions"@, JsonView::Str("kernel.ast.fetchFunctions"@)).with(
        "reload_globals"@,
        JsonView::Str("kernel.ast.reloadGlobals"@),
    ).with("fetch_globals"@, JsonView::Str("kernel.ast.fetchGlobals"@)).with(
        "reload_properties"@,
        JsonView::Str("kernel.properties.reloadStatus"@),
    ).with("fetch_properties"@, JsonView::Str("kernel.properties.fetchStatus"@))
}

/// What is reported of a reload that took.
pub open spec fn health(
    files: JsonView,
    functions: int,
    globals: int,
    properties: int,
    parse_diagnostics: JsonView,
) -> JsonView {
    JsonView::object().with("checked"@, JsonView::Bool(true)).with(
        "requests"@,
        health_requests(),
    ).with("files_count"@, JsonView::num(list_len(files))).with(
        "functions_count"@,
        JsonView::num(functions),
    ).with("globals_count"@, JsonView::num(globals)).with(
        "properties_count"@,
        JsonView::num(properties),
    ).with("parse_diagnostics"@, parse_diagnostics)
}

/// What is reported of a reload that took.
pub fn ast_reload_health(
    files: &Json,
    functions: &Vec<Json>,
    globals: &Vec<Json>,
    properties: &Vec<Json>,
    parse_diagnostics: Json,
) -> (r: Json)
    ensures
        r@ == health(
            files@,
            functions@.len() as int,
            globals@.len() as int,
            properties@.len() as int,
            parse_diagnostics@,
        ),
{
    let files_count: usize = match files.as_list() {
        Some(items) => {
            assert(models(items@).len() == items@.len());
            items.len()
        },
        None => 0,
    };
    let requests = Json::object().with("get_files", Json::str("kernel.ast.getFiles")).with(
        "reload_functions",
        Json::str("kernel.ast.reloadFunctions"),
    ).with("fetch_functions", Json::str("kernel.ast.fetchFunctions")).with(
        "reload_globals",
        Json::str("kernel.ast.reloadGlobals"),
    ).with("fetch_globals", Json::str("kernel.ast.fetchGlobals")).with(
        "reload_properties",
        Json::str("kernel.properties.reloadStatus"),
    ).with("fetch_properties", Json::str("kernel.properties.fetchStatus"));
    Json::object().with("checked", Json::Bool(true)).with("requests", requests).with(
        "files_count",
        Json::num(files_count as u64),
    ).with("functions_count", Json::num(functions.len() as u64)).with(
        "globals_count",
        Json::num(globals.len() as u64),
    ).with("properties_count", Json::num(properties.len() as u64)).with(
        "parse_diagnostics",
        parse_diagnostics,
    )
}

// ---------------------------------------------------------------------------
// What is answered
// ---------------------------------------------------------------------------

/// The most stale markers that are shown. The count is the signal.
pub const STALE_MARKER_SAMPLE: usize = 20;

/// How a function is summarized.
pub open spec fn function_summary(entry: JsonView) -> JsonView {
    JsonView::object().with("name"@, JsonView::or_null(entry.get("name"@))).with(
        "defined"@,
        JsonView::or_null(entry.get("defined"@)),
    )
}

/// The functions that are answered: all that is known of them, or their summaries.
pub open spec fn answered_functions(entries: Seq<JsonView>, detail: Detail) -> Seq<JsonView> {
    if detail == Detail::Full {
        entries
    } else {
        entries.map_values(|e: JsonView| function_summary(e))
    }
}

/// How stale markers are reported: their number, the first of them, and how many are not shown.
pub open spec fn stability(checked: bool, stale: Seq<JsonView>) -> JsonView {
    let shown = crate::parselog::sample(stale, STALE_MARKER_SAMPLE as int);
    JsonView::object().with("checked"@, JsonView::Bool(checked)).with(
        "stale_marker_count"@,
        JsonView::num(stale.len() as int),
    ).with("stale_markers"@, JsonView::Array(shown)).with(
        "stale_markers_omitted"@,
        JsonView::num(stale.len() - shown.len()),
    )
}

/// What a reload brought about.
pub struct Reloaded {
    /// The functions, as Frama-C lists them.
    pub functions: Vec<Json>,
    /// The files.
    pub files: Vec<String>,
    /// Whether markers were read before and after.
    pub checked: bool,
    /// The markers that no longer stand where they stood, in order.
    pub stale: Vec<Json>,
    /// What is reported of the reload.
    pub health: Json,
    /// What Frama-C said.
    pub messages: Json,
    /// Whether it said more.
    pub messages_truncated: bool,
}

/// What is answered to a reload.
pub open spec fn reload_answer(
    done: Reloaded,
    detail: Detail,
    rte: bool,
    options: OptionsView,
) -> JsonView {
    JsonView::object().with(
        "functions"@,
        JsonView::Array(answered_functions(models(done.functions@), detail)),
    ).with("detail"@, JsonView::Str(detail.word())).with(
        "files"@,
        JsonView::strings(texts(done.files@)),
    ).with("rte"@, JsonView::Bool(rte)).with(
        "include_paths"@,
        JsonView::strings(options.include_paths),
    ).with("defines"@, JsonView::strings(options.defines)).with(
        "force_includes"@,
        JsonView::strings(options.force_includes),
    ).with("machdep"@, JsonView::opt_text(options.machdep)).with(
        "compilation_database"@,
        JsonView::opt_text(options.compilation_database),
    ).with("source_location_stability"@, stability(done.checked, models(done.stale@))).with(
        "ast_reload_health"@,
        done.health@,
    ).with("messages"@, done.messages@).with(
        "messages_truncated"@,
        JsonView::Bool(done.messages_truncated),
    )
}

/// An optional text as a value.
pub fn text_or_null(o: &Option<String>) -> (r: Json)
    ensures
        r@ == JsonView::opt_text(opt_string(*o)),
{
    match o {
        Some(s) => Json::str(s.as_str()),
        None => Json::Null,
    }
}

fn summarize(entries: &Vec<Json>) -> (r: Vec<Json>)
    ensures
        models(r@) == models(entries@).map_values(|e: JsonView| function_summary(e)),
{
    let mut out: Vec<Json> = Vec::new();
    let mut i: usize = 0;
    while i < entries.len()
        invariant
            i <= entries@.len(),
            out@.len() == i,
            forall|k: int| 0 <= k < i ==> (#[trigger] out@[k])@ == function_summary(entries@[k]@),
        decreases entries@.len() - i,
    {
        let e = &entries[i];
        out.push(
            Json::object().with("name", Json::or_null(e.get("name"))).with(
                "defined",
                Json::or_null(e.get("defined")),
            ),
        );
        i = i + 1;
    }
    assert(models(out@) =~= models(entries@).map_values(|e: JsonView| function_summary(e)));
    out
}

fn stability_value(checked: bool, stale: Vec<Json>) -> (r: Json)
    ensures
        r@ == stability(checked, models(stale@)),
{
    let ghost all = models(stale@);
    let count: usize = stale.len();
    let mut shown = stale;
    if count > STALE_MARKER_SAMPLE {
        shown.truncate(STALE_MARKER_SAMPLE);
    }
    assert(models(shown@) =~= crate::parselog::sample(all, STALE_MARKER_SAMPLE as int));
    let omitted: usize = count - shown.len();
    Json::object().with("checked", Json::Bool(checked)).with(
        "stale_marker_count",
        Json::num(count as u64),
    ).with("stale_markers", Json::array(shown)).with(
        "stale_markers_omitted",
        Json::num(omitted as u64),
    )
}

/// What is answered to a reload.
pub fn reload_response(
    done: Reloaded,
    detail: Detail,
    rte: bool,
    options: &ProjectLoadOptions,
) -> (r: Json)
    ensures
        r@ == reload_answer(done, detail, rte, options@),
{
    let functions = if detail.is_full() {
        done.functions
    } else {
        summarize(&done.functions)
    };
    Json::object().with("functions", Json::array(functions)).with(
        "detail",
        Json::str(detail.as_str()),
    ).with("files", Json::strings(&done.files)).with("rte", Json::Bool(rte)).with(
        "include_paths",
        Json::strings(&options.include_paths),
    ).with("defines", Json::strings(&options.defines)).with(
        "force_includes",
        Json::strings(&options.force_includes),
    ).with("machdep", text_or_null(&options.machdep)).with(
        "compilation_database",
        text_or_null(&options.compilation_database),
    ).with("source_location_stability", stability_value(done.checked, done.stale)).with(
        "ast_reload_health",
        done.health,
    ).with("messages", done.messages).with(
        "messages_truncated",
        Json::Bool(done.messages_truncated),
    )
}

// ---------------------------------------------------------------------------
// Looking things up
// ---------------------------------------------------------------------------

/// What is known of a function.
pub struct FunctionInfo {
    pub name: String,
    pub marker: String,
    pub signature: String,
    pub file: Option<String>,
    pub line: Option<u64>,
    pub declaration: String,
}

/// What is known of a global variable.
pub struct GlobalInfo {
    pub name: String,
    pub marker: String,
    pub typ: String,
    pub file: Option<String>,
    pub line: Option<u64>,
    pub declaration: String,
}

/// What is answered about a function, with the text of its declaration.
pub open spec fn function_answer(info: FunctionInfo, declaration: JsonView) -> JsonView {
    JsonView::object().with("name"@, JsonView::Str(info.name@)).with(
        "marker"@,
        JsonView::Str(info.marker@),
    ).with("signature"@, JsonView::Str(info.signature@)).with(
        "file"@,
        JsonView::opt_text(opt_string(info.file)),
    ).with("line"@, JsonView::opt_int(line_view(info.line))).with(
        "declaration_marker"@,
        JsonView::Str(info.declaration@),
    ).with("declaration"@, declaration)
}

/// What is answered about a function, with the text of its declaration.
pub fn function_info_payload(info: &FunctionInfo, declaration: Json) -> (r: Json)
    ensures
        r@ == function_answer(*info, declaration@),
{
    Json::object().with("name", Json::str(info.name.as_str())).with(
        "marker",
        Json::str(info.marker.as_str()),
    ).with("signature", Json::str(info.signature.as_str())).with(
        "file",
        text_or_null(&info.file),
    ).with("line", Json::opt_num(info.line)).with(
        "declaration_marker",
        Json::str(info.declaration.as_str()),
    ).with("declaration", declaration)
}

/// What is answered about the function of a sandbox: a sandbox keeps no more than its name and
/// its declaration.
pub fn sandbox_function_payload(function: &str, declaration: Json) -> (r: Json)
    ensures
        r@ == JsonView::object().with("name"@, JsonView::Str(function@)).with(
            "declaration"@,
            declaration@,
        ),
{
    Json::object().with("name", Json::str(function)).with("declaration", declaration)
}

/// What a name was found to be.
pub enum Symbol {
    /// A function, with what is answered about it.
    Function(Json),
    /// A global variable.
    Global(GlobalInfo),
}

/// What is answered about a name.
pub open spec fn symbol_answer(symbol: Symbol) -> JsonView {
    match symbol {
        Symbol::Function(v) => v@.with("kind"@, JsonView::Str("function"@)),
        Symbol::Global(info) => JsonView::object().with(
            "kind"@,
            JsonView::Str("global_variable"@),
        ).with("name"@, JsonView::Str(info.name@)).with("type"@, JsonView::Str(info.typ@)).with(
            "file"@,
            JsonView::opt_text(opt_string(info.file)),
        ).with("line"@, JsonView::opt_int(line_view(info.line))).with(
            "marker"@,
            JsonView::Str(info.marker@),
        ).with("declaration"@, JsonView::Str(info.declaration@)),
    }
}

/// What is answered about a name.
pub fn lookup_symbol_payload(symbol: Symbol) -> (r: Json)
    ensures
        r@ == symbol_answer(symbol),
{
    match symbol {
        Symbol::Function(v) => v.with("kind", Json::str("function")),
        Symbol::Global(info) => Json::object().with("kind", Json::str("global_variable")).with(
            "name",
            Json::str(info.name.as_str()),
        ).with("type", Json::str(info.typ.as_str())).with("file", text_or_null(&info.file)).with(
            "line",
            Json::opt_num(info.line),
        ).with("marker", Json::str(info.marker.as_str())).with(
            "declaration",
            Json::str(info.declaration.as_str()),
        ),
    }
}

/// What is asked for the values at a marker. A call stack that is not named is left out rather
/// than sent as null.
pub open spec fn value_request(marker: Seq<char>, callstack: Option<u32>) -> JsonView {
    let request = JsonView::object().with("target"@, JsonView::Str(marker));
    match callstack {
        Some(c) => request.with("callstack"@, JsonView::num(c as int)),
        None => request,
    }
}

/// What is asked for the values at a marker.
pub fn eva_value_request(marker: &str, callstack: Option<u32>) -> (r: Json)
    ensures
        r@ == value_request(marker@, callstack),
{
    let request = Json::object().with("target", Json::str(marker));
    match callstack {
        Some(c) => request.with("callstack", Json::num(c as u64)),
        None => request,
    }
}

/// What the plug-in answered about the function around a marker.
pub enum EnclosingReply {
    /// It was not asked, because there is no marker.
    NotAsked,
    /// It answered.
    Answered(Json),
    /// It failed, for instance because it is too old to know the request.
    Failed(String),
}

/// Whether a path is among the files that are loaded.
pub open spec fn is_loaded(loaded: Seq<JsonView>, file: Seq<char>) -> bool {
    exists|i: int| 0 <= i < loaded.len() && (#[trigger] loaded[i]).as_text() == Some(file)
}

/// What is answered about a source position. A path that Frama-C does not know gives as little as
/// a blank line, and the two are told apart by the files that are loaded. A function that could
/// not be asked for is not reported as one that is not there.
pub open spec fn position(
    file: Seq<char>,
    line: u32,
    column: u32,
    reply: JsonView,
    loaded: Seq<JsonView>,
    enclosing: EnclosingReply,
) -> JsonView {
    let marker = reply.as_text();
    let unknown_file = marker is None && !is_loaded(loaded, file);
    let (function, function_error) = match (marker, enclosing) {
        (Some(_), EnclosingReply::Answered(v)) => (
            JsonView::or_null(v@.get("function"@)),
            JsonView::Null,
        ),
        (Some(_), EnclosingReply::Failed(e)) => (JsonView::Null, JsonView::Str(e@)),
        _ => (JsonView::Null, JsonView::Null),
    };
    JsonView::object().with("kind"@, JsonView::Str("position"@)).with(
        "file"@,
        JsonView::Str(file),
    ).with("line"@, JsonView::num(line as int)).with("column"@, JsonView::num(column as int)).with(
        "marker"@,
        JsonView::opt_text(marker),
    ).with(
        "marker_kind"@,
        JsonView::Str(
            if unknown_file {
                "unknown_file"@
            } else {
                kind_of_marker(marker)
            },
        ),
    ).with(
        "stmt_id"@,
        JsonView::opt_int(
            match marker {
                Some(m) => stmt_id(m),
                None => None,
            },
        ),
    ).with("function"@, function).with("function_error"@, function_error).with(
        "loaded_files"@,
        if unknown_file {
            JsonView::Array(loaded)
        } else {
            JsonView::Null
        },
    )
}

fn knows_file(loaded: &Vec<Json>, file: &str) -> (r: bool)
    ensures
        r == is_loaded(models(loaded@), file@),
{
    let ghost all = models(loaded@);
    let mut i: usize = 0;
    while i < loaded.len()
        invariant
            i <= loaded@.len(),
            all == models(loaded@),
            forall|k: int| 0 <= k < i ==> (#[trigger] all[k]).as_text() != Some(file@),
        decreases loaded@.len() - i,
    {
        assert(all[i as int] == loaded@[i as int]@);
        match loaded[i].as_text() {
            Some(t) => {
                if same(t, file) {
                    assert(is_loaded(all, file@));
                    return true;
                }
            },
            None => {},
        }
        i = i + 1;
    }
    assert(all.len() == loaded@.len());
    false
}

/// What is asked for the marker at a source position.
pub fn position_request(file: &str, line: u32, column: u32) -> (r: Json)
    ensures
        r@ == JsonView::object().with("file"@, JsonView::Str(file@)).with(
            "line"@,
            JsonView::num(line as int),
        ).with("column"@, JsonView::num(column as int)),
{
    Json::object().with("file", Json::str(file)).with("line", Json::num(line as u64)).with(
        "column",
        Json::num(column as u64),
    )
}

/// What is answered about a source position. `loaded` holds the files that are loaded, which are
/// asked for only where there is no marker.
pub fn lookup_position_payload(
    file: &str,
    line: u32,
    column: u32,
    reply: &Json,
    loaded: Vec<Json>,
    enclosing: &EnclosingReply,
) -> (r: Json)
    ensures
        r@ == position(file@, line, column, reply@, models(loaded@), *enclosing),
{
    let marker = reply.as_text();
    let unknown_file = marker.is_none() && !knows_file(&loaded, file);
    let mut function = Json::Null;
    let mut function_error = Json::Null;
    if marker.is_some() {
        match enclosing {
            EnclosingReply::Answered(v) => {
                function = Json::or_null(v.get("function"));
            },
            EnclosingReply::Failed(e) => {
                function_error = Json::str(e.as_str());
            },
            EnclosingReply::NotAsked => {},
        }
    }
    let kind = if unknown_file {
        "unknown_file"
    } else {
        marker_kind(marker)
    };
    let id: Json = match marker {
        Some(m) => match marker_stmt_id(m) {
            Some(n) => Json::signed(n),
            None => Json::Null,
        },
        None => Json::Null,
    };
    let files = if unknown_file {
        Json::array(loaded)
    } else {
        Json::Null
    };
    Json::object().with("kind", Json::str("position")).with("file", Json::str(file)).with(
        "line",
        Json::num(line as u64),
    ).with("column", Json::num(column as u64)).with("marker", Json::opt_str(marker)).with(
        "marker_kind",
        Json::str(kind),
    ).with("stmt_id", id).with("function", function).with("function_error", function_error).with(
        "loaded_files",
        files,
    )
}

// ---------------------------------------------------------------------------
// Lists
// ---------------------------------------------------------------------------

/// Why a list cannot be asked for so, if it cannot.
pub open spec fn list_complaint(params: ListParams) -> Option<Seq<char>> {
    if params.status is Some && params.kind != ListKind::Conclusions {
        Some("status is only supported for kind=\"conclusions\""@)
    } else if params.function is Some && params.kind != ListKind::Conclusions {
        Some("function is only supported for kind=\"conclusions\""@)
    } else if params.status is Some && params.function is Some {
        Some("status cannot be combined with function"@)
    } else {
        None
    }
}

/// Refuses a list that is filtered by what it does not hold.
pub fn validate_list(params: &ListParams) -> (r: Result<(), ToolError>)
    ensures
        match r {
            Ok(_) => list_complaint(*params) is None,
            Err(e) => list_complaint(*params) is Some && e@ == ToolErrorView::invalid(
                list_complaint(*params)->0,
            ),
        },
{
    let conclusions = params.kind == ListKind::Conclusions;
    if params.status.is_some() && !conclusions {
        return Err(
            ToolError::invalid(owned("status is only supported for kind=\"conclusions\"")),
        );
    }
    if params.function.is_some() && !conclusions {
        return Err(
            ToolError::invalid(owned("function is only supported for kind=\"conclusions\"")),
        );
    }
    if params.status.is_some() && params.function.is_some() {
        return Err(ToolError::invalid(owned("status cannot be combined with function")));
    }
    Ok(())
}

/// How a function or a global is listed, with its signature or type under a key.
pub open spec fn listed(
    name: Seq<char>,
    key: Seq<char>,
    signature: Seq<char>,
    file: Option<Seq<char>>,
    line: Option<int>,
) -> JsonView {
    JsonView::object().with("name"@, JsonView::Str(name)).with(key, JsonView::Str(signature)).with(
        "file"@,
        JsonView::opt_text(file),
    ).with("line"@, JsonView::opt_int(line))
}

/// How functions are listed.
pub fn list_functions_payload(functions: &Vec<FunctionInfo>) -> (r: Json)
    ensures
        r@ == JsonView::Array(
            functions@.map_values(
                |f: FunctionInfo|
                    listed(
                        f.name@,
                        "signature"@,
                        f.signature@,
                        opt_string(f.file),
                        line_view(f.line),
                    ),
            ),
        ),
{
    let mut out: Vec<Json> = Vec::new();
    let mut i: usize = 0;
    while i < functions.len()
        invariant
            i <= functions@.len(),
            out@.len() == i,
            forall|k: int|
                0 <= k < i ==> (#[trigger] out@[k])@ == listed(
                    functions@[k].name@,
                    "signature"@,
                    functions@[k].signature@,
                    opt_string(functions@[k].file),
                    line_view(functions@[k].line),
                ),
        decreases functions@.len() - i,
    {
        let f = &functions[i];
        out.push(
            Json::object().with("name", Json::str(f.name.as_str())).with(
                "signature",
                Json::str(f.signature.as_str()),
            ).with("file", text_or_null(&f.file)).with("line", Json::opt_num(f.line)),
        );
        i = i + 1;
    }
    assert(models(out@) =~= functions@.map_values(
        |f: FunctionInfo|
            listed(f.name@, "signature"@, f.signature@, opt_string(f.file), line_view(f.line)),
    ));
    Json::array(out)
}

/// How global variables are listed.
pub fn list_globals_payload(globals: &Vec<GlobalInfo>) -> (r: Json)
    ensures
        r@ == JsonView::Array(
            globals@.map_values(
                |g: GlobalInfo|
                    listed(g.name@, "type"@, g.typ@, opt_string(g.file), line_view(g.line)),
            ),
        ),
{
    let mut out: Vec<Json> = Vec::new();
    let mut i: usize = 0;
    while i < globals.len()
        invariant
            i <= globals@.len(),
            out@.len() == i,
            forall|k: int|
                0 <= k < i ==> (#[trigger] out@[k])@ == listed(
                    globals@[k].name@,
                    "type"@,
                    globals@[k].typ@,
                    opt_string(globals@[k].file),
                    line_view(globals@[k].line),
                ),
        decreases globals@.len() - i,
    {
        let g = &globals[i];
        out.push(
            Json::object().with("name", Json::str(g.name.as_str())).with(
                "type",
                Json::str(g.typ.as_str()),
            ).with("file", text_or_null(&g.file)).with("line", Json::opt_num(g.line)),
        );
        i = i + 1;
    }
    assert(models(out@) =~= globals@.map_values(
        |g: GlobalInfo| listed(g.name@, "type"@, g.typ@, opt_string(g.file), line_view(g.line)),
    ));
    Json::array(out)
}

/// What is said when declarations cannot be listed.
pub fn no_declarations_error() -> (r: ToolError)
    ensures
        r@ == ToolErrorView::internal(
            "kernel.ast.getDeclarations not available in this Frama-C version"@,
        ),
{
    ToolError::internal(owned("kernel.ast.getDeclarations not available in this Frama-C version"))
}

// ---------------------------------------------------------------------------
// What holds of a reload and of what is looked up
// ---------------------------------------------------------------------------

/// The options of a load are those of the request, each under its own name; what is not asked for
/// is empty or off.
pub proof fn law_the_options_are_those_of_the_request(p: ReloadProjectParams)
    ensures
        p.include_paths is Some ==> reload_options(p).include_paths == texts(p.include_paths->0@),
        p.isystem_paths is Some ==> reload_options(p).isystem_paths == texts(p.isystem_paths->0@),
        p.defines is Some ==> reload_options(p).defines == texts(p.defines->0@),
        p.force_includes is Some ==> reload_options(p).force_includes == texts(p.force_includes->0@),
        p.machdep is Some ==> reload_options(p).machdep == Some(p.machdep->0@),
        p.compilation_database is Some ==> reload_options(p).compilation_database == Some(
            p.compilation_database->0@,
        ),
        p.nostdinc == Some(true) ==> reload_options(p).nostdinc,
        p.nostdinc is None ==> !reload_options(p).nostdinc,
        p.include_paths is None ==> reload_options(p).include_paths.len() == 0,
        p.defines is None ==> reload_options(p).defines.len() == 0,
{
}

/// The files of a load are those that are named; else those of the database; else those that the
/// process has, or had where its transport is dead; and an error where none are known.
pub proof fn law_files_are_taken_from_the_nearest_source(
    files: Seq<Seq<char>>,
    database: Option<Seq<char>>,
    d: Seq<char>,
    client: ClientState,
    cached: Vec<String>,
)
    ensures
        files_chosen(Some(files), database, client) == ChoiceView::Given(files),
        files_chosen(None, Some(d), client) == ChoiceView::FromDatabase(d),
        files_chosen(None, None, ClientState::Live) == ChoiceView::AskClient,
        files_chosen(None, None, ClientState::Absent) == ChoiceView::NotLoaded,
        cached@.len() > 0 ==> files_chosen(None, None, ClientState::Poisoned { cached })
            == ChoiceView::Given(texts(cached@)),
        cached@.len() == 0 ==> files_chosen(None, None, ClientState::Poisoned { cached })
            == ChoiceView::Poisoned(poisoned_error()),
        poisoned_error().data is Some,
        poisoned_error().data->0.text("kind"@) == Some("TransportPoisoned"@),
        poisoned_error().data->0.flag("retryable"@) == Some(true),
        poisoned_error().data->0.at("suggestion"@, "tool"@) == Some(JsonView::Str("reload_project"@)),
{
    broadcast use crate::json::group_object_reads;

    reveal_strlit("kind");
    reveal_strlit("retryable");
    reveal_strlit("suggestion");
    assert("kind"@.len() == 4 && "retryable"@.len() == 9);
    assert("suggestion"@.len() == 10);
    reveal_strlit("tool");
    reveal_strlit("args_example");
    assert("tool"@.len() == 4 && "args_example"@.len() == 12);
}

/// The files that a process names are the texts of its list, in order.
pub proof fn law_files_are_the_texts_of_a_list(items: Seq<JsonView>, t: Seq<char>, b: bool)
    ensures
        listed_texts(JsonView::Array(items.push(JsonView::Str(t)))) == listed_texts(
            JsonView::Array(items),
        ).push(t),
        listed_texts(JsonView::Array(items.push(JsonView::Bool(b)))) == listed_texts(
            JsonView::Array(items),
        ),
        listed_texts(JsonView::Null).len() == 0,
        listed_texts(JsonView::Array(Seq::empty())).len() == 0,
{
    assert(items.push(JsonView::Str(t)).drop_last() =~= items);
    assert(items.push(JsonView::Bool(b)).drop_last() =~= items);
}

/// The record of a parse is made of the log once and kept; a process that is gone and a log that
/// cannot be read are told, and nothing is kept of them.
pub proof fn law_a_parse_is_recorded_once(
    bytes: Vec<u8>,
    end: u64,
    cwd: String,
    v: Json,
    path: String,
    error: String,
)
    ensures
        end <= bytes@.len() ==> parse_record(ParseRecord::Log { bytes, end, cwd }) == (
            diagnostics(utf8_lossy(bytes@.subrange(0, end as int)), cwd@),
            true,
        ),
        parse_record(ParseRecord::Cached(v)) == (v@, false),
        parse_record(ParseRecord::NoProcess) == (no_parse_log("the Frama-C process is gone"@), false),
        parse_record(ParseRecord::Unreadable { path, error }) == (
            no_parse_log("cannot read the Frama-C stdout log at "@ + path@ + ": "@ + error@),
            false,
        ),
{
    if end == bytes@.len() {
        assert(bytes@.subrange(0, end as int) =~= bytes@);
    }
}

/// What is told of the health of a reload are the counts of what was loaded and the record of its
/// parse.
pub proof fn law_health_counts_what_was_loaded(
    files: Seq<JsonView>,
    functions: int,
    globals: int,
    properties: int,
    parsed: JsonView,
)
    ensures
        ({
            let h = health(JsonView::Array(files), functions, globals, properties, parsed);
            &&& h.get("files_count"@) == Some(JsonView::num(files.len() as int))
            &&& h.get("functions_count"@) == Some(JsonView::num(functions))
            &&& h.get("globals_count"@) == Some(JsonView::num(globals))
            &&& h.get("properties_count"@) == Some(JsonView::num(properties))
            &&& h.get("parse_diagnostics"@) == Some(parsed)
            &&& h.flag("checked"@) == Some(true)
        }),
{
    broadcast use crate::json::group_object_reads;

    reveal_strlit("checked");
    reveal_strlit("requests");
    reveal_strlit("files_count");
    reveal_strlit("functions_count");
    reveal_strlit("globals_count");
    reveal_strlit("properties_count");
    reveal_strlit("parse_diagnostics");
    assert("checked"@.len() == 7 && "requests"@.len() == 8);
    assert("files_count"@.len() == 11 && "functions_count"@.len() == 15);
    assert("globals_count"@.len() == 13 && "properties_count"@.len() == 16);
    assert("parse_diagnostics"@.len() == 17);
}

/// The answer to a reload says what was loaded, with which options, which markers moved, and what
/// Frama-C said.
pub proof fn law_a_reload_is_answered_in_full(
    done: Reloaded,
    detail: Detail,
    rte: bool,
    options: OptionsView,
)
    ensures
        ({
            let a = reload_answer(done, detail, rte, options);
            &&& a.get("files"@) == Some(JsonView::strings(texts(done.files@)))
            &&& a.flag("rte"@) == Some(rte)
            &&& a.get("include_paths"@) == Some(JsonView::strings(options.include_paths))
            &&& a.get("defines"@) == Some(JsonView::strings(options.defines))
            &&& a.get("force_includes"@) == Some(JsonView::strings(options.force_includes))
            &&& a.get("machdep"@) == Some(JsonView::opt_text(options.machdep))
            &&& a.get("compilation_database"@) == Some(
                JsonView::opt_text(options.compilation_database),
            )
            &&& a.get("ast_reload_health"@) == Some(done.health@)
            &&& a.get("messages"@) == Some(done.messages@)
            &&& a.flag("messages_truncated"@) == Some(done.messages_truncated)
            &&& detail == Detail::Full ==> a.get("functions"@) == Some(
                JsonView::Array(models(done.functions@)),
            )
            &&& a.at("source_location_stability"@, "stale_marker_count"@) == Some(
                JsonView::num(done.stale@.len() as int),
            )
            &&& a.at("source_location_stability"@, "checked"@) == Some(JsonView::Bool(done.checked))
        }),
{
    broadcast use crate::json::group_object_reads;

    reveal_strlit("functions");
    reveal_strlit("detail");
    reveal_strlit("files");
    reveal_strlit("rte");
    reveal_strlit("include_paths");
    reveal_strlit("defines");
    reveal_strlit("force_includes");
    reveal_strlit("machdep");
    reveal_strlit("compilation_database");
    reveal_strlit("source_location_stability");
    reveal_strlit("ast_reload_health");
    reveal_strlit("messages");
    reveal_strlit("messages_truncated");
    assert("functions"@.len() == 9 && "detail"@.len() == 6);
    assert("files"@.len() == 5 && "rte"@.len() == 3);
    assert("include_paths"@.len() == 13 && "defines"@.len() == 7);
    assert("force_includes"@.len() == 14 && "machdep"@.len() == 7);
    assert("compilation_database"@.len() == 20 && "source_location_stability"@.len() == 25);
    assert("ast_reload_health"@.len() == 17 && "messages"@.len() == 8);
    assert("messages_truncated"@.len() == 18);
    assert("defines"@[0] != "machdep"@[0]);
    reveal_strlit("checked");
    reveal_strlit("stale_marker_count");
    reveal_strlit("stale_markers");
    reveal_strlit("stale_markers_omitted");
    assert("checked"@.len() == 7 && "stale_marker_count"@.len() == 18);
    assert("stale_markers"@.len() == 13 && "stale_markers_omitted"@.len() == 21);
}

/// At most twenty markers that moved are shown, the first ones, and the rest are counted.
pub proof fn law_moved_markers_are_shown_and_counted(checked: bool, stale: Seq<JsonView>)
    ensures
        stale.len() <= 20 ==> stability(checked, stale).get("stale_markers"@) == Some(
            JsonView::Array(stale),
        ) && stability(checked, stale).get("stale_markers_omitted"@) == Some(JsonView::num(0)),
        stale.len() > 20 ==> stability(checked, stale).get("stale_markers"@) == Some(
            JsonView::Array(stale.subrange(0, 20)),
        ) && stability(checked, stale).get("stale_markers_omitted"@) == Some(
            JsonView::num(stale.len() - 20),
        ),
{
    broadcast use crate::json::group_object_reads;

    reveal_strlit("checked");
    reveal_strlit("stale_marker_count");
    reveal_strlit("stale_markers");
    reveal_strlit("stale_markers_omitted");
    assert("checked"@.len() == 7 && "stale_marker_count"@.len() == 18);
    assert("stale_markers"@.len() == 13 && "stale_markers_omitted"@.len() == 21);
}

/// A function in short is its name and whether it is defined.
pub proof fn law_a_function_in_short(entries: Seq<JsonView>, i: int, name: JsonView, defined: JsonView)
    requires
        0 <= i < entries.len(),
        entries[i].get("name"@) == Some(name),
        entries[i].get("defined"@) == Some(defined),
    ensures
        answered_functions(entries, Detail::Full) == entries,
        answered_functions(entries, Detail::Summary).len() == entries.len(),
        answered_functions(entries, Detail::Summary)[i].get("name"@) == Some(name),
        answered_functions(entries, Detail::Summary)[i].get("defined"@) == Some(defined),
{
    broadcast use crate::json::group_object_reads;

    reveal_strlit("name");
    reveal_strlit("defined");
    assert("name"@.len() == 4 && "defined"@.len() == 7);
}

/// What is answered about a function and about a variable is what is known of it, each under its
/// own name, with what it is.
pub proof fn law_a_symbol_is_answered_with_what_it_is(
    info: FunctionInfo,
    declaration: JsonView,
    global: GlobalInfo,
    v: Json,
)
    ensures
        ({
            let a = function_answer(info, declaration);
            &&& a.text("name"@) == Some(info.name@)
            &&& a.text("marker"@) == Some(info.marker@)
            &&& a.text("signature"@) == Some(info.signature@)
            &&& a.get("file"@) == Some(JsonView::opt_text(opt_string(info.file)))
            &&& a.get("line"@) == Some(JsonView::opt_int(line_view(info.line)))
            &&& a.text("declaration_marker"@) == Some(info.declaration@)
            &&& a.get("declaration"@) == Some(declaration)
        }),
        ({
            let g = symbol_answer(Symbol::Global(global));
            &&& g.text("kind"@) == Some("global_variable"@)
            &&& g.text("name"@) == Some(global.name@)
            &&& g.text("type"@) == Some(global.typ@)
            &&& g.get("file"@) == Some(JsonView::opt_text(opt_string(global.file)))
            &&& g.get("line"@) == Some(JsonView::opt_int(line_view(global.line)))
            &&& g.text("marker"@) == Some(global.marker@)
            &&& g.text("declaration"@) == Some(global.declaration@)
        }),
        v@ is Object ==> symbol_answer(Symbol::Function(v)).text("kind"@) == Some("function"@),
{
    broadcast use crate::json::group_object_reads;

    reveal_strlit("name");
    reveal_strlit("marker");
    reveal_strlit("signature");
    reveal_strlit("file");
    reveal_strlit("line");
    reveal_strlit("declaration_marker");
    reveal_strlit("declaration");
    assert("name"@.len() == 4 && "marker"@.len() == 6);
    assert("signature"@.len() == 9 && "file"@.len() == 4);
    assert("line"@.len() == 4 && "declaration_marker"@.len() == 18);
    assert("declaration"@.len() == 11);
    assert("name"@[0] != "file"@[0]);
    assert("name"@[0] != "line"@[0]);
    assert("file"@[0] != "line"@[0]);
    reveal_strlit("kind");
    reveal_strlit("name");
    reveal_strlit("type");
    reveal_strlit("file");
    reveal_strlit("line");
    reveal_strlit("marker");
    reveal_strlit("declaration");
    assert("kind"@.len() == 4 && "name"@.len() == 4);
    assert("type"@.len() == 4 && "file"@.len() == 4);
    assert("line"@.len() == 4 && "marker"@.len() == 6);
    assert("declaration"@.len() == 11);
    assert("kind"@[0] != "name"@[0]);
    assert("kind"@[0] != "type"@[0]);
    assert("kind"@[0] != "file"@[0]);
    assert("kind"@[0] != "line"@[0]);
    assert("name"@[0] != "type"@[0]);
    assert("name"@[0] != "file"@[0]);
    assert("name"@[0] != "line"@[0]);
    assert("type"@[0] != "file"@[0]);
    assert("type"@[0] != "line"@[0]);
    assert("file"@[0] != "line"@[0]);
}

/// A position is answered with the marker that stands there and the function around it; without a
/// marker, a file that is not loaded is told together with those that are.
pub proof fn law_a_position_is_answered(
    file: Seq<char>,
    line: u32,
    column: u32,
    marker: Seq<char>,
    loaded: Seq<JsonView>,
    found: Json,
    function: JsonView,
    i: int,
)
    requires
        found@.get("function"@) == Some(function),
    ensures
        ({
            let p = position(
                file,
                line,
                column,
                JsonView::Str(marker),
                loaded,
                EnclosingReply::Answered(found),
            );
            &&& p.text("file"@) == Some(file)
            &&& p.get("line"@) == Some(JsonView::num(line as int))
            &&& p.get("column"@) == Some(JsonView::num(column as int))
            &&& p.text("marker"@) == Some(marker)
            &&& p.text("marker_kind"@) == Some(kind_of_marker(Some(marker)))
            &&& p.get("function"@) == Some(function)
            &&& p.get("loaded_files"@) == Some(JsonView::Null)
        }),
        ({
            let p = position(file, line, column, JsonView::Null, loaded, EnclosingReply::NotAsked);
            let known = 0 <= i < loaded.len() && loaded[i] == JsonView::Str(file);
            &&& known ==> p.text("marker_kind"@) == Some("none"@) && p.get("loaded_files"@) == Some(
                JsonView::Null,
            )
            &&& loaded.len() == 0 ==> p.text("marker_kind"@) == Some("unknown_file"@) && p.get(
                "loaded_files"@,
            ) == Some(JsonView::Array(loaded))
        }),
{
    broadcast use crate::json::group_object_reads;

    reveal_strlit("kind");
    reveal_strlit("file");
    reveal_strlit("line");
    reveal_strlit("column");
    reveal_strlit("marker");
    reveal_strlit("marker_kind");
    reveal_strlit("stmt_id");
    reveal_strlit("function");
    reveal_strlit("function_error");
    reveal_strlit("loaded_files");
    assert("kind"@.len() == 4 && "file"@.len() == 4);
    assert("line"@.len() == 4 && "column"@.len() == 6);
    assert("marker"@.len() == 6 && "marker_kind"@.len() == 11);
    assert("stmt_id"@.len() == 7 && "function"@.len() == 8);
    assert("function_error"@.len() == 14 && "loaded_files"@.len() == 12);
    assert("kind"@[0] != "file"@[0]);
    assert("kind"@[0] != "line"@[0]);
    assert("file"@[0] != "line"@[0]);
    assert("column"@[0] != "marker"@[0]);
    if 0 <= i < loaded.len() && loaded[i] == JsonView::Str(file) {
        assert(loaded[i].as_text() == Some(file));
        assert(is_loaded(loaded, file));
    }
}

/// The value of a marker is asked for at the callstack that is named, and at all of them where none
/// is.
pub proof fn law_a_value_is_asked_for_where_it_is_named(marker: Seq<char>, callstack: u32)
    ensures
        value_request(marker, Some(callstack)).text("target"@) == Some(marker),
        value_request(marker, Some(callstack)).get("callstack"@) == Some(
            JsonView::num(callstack as int),
        ),
        value_request(marker, None).text("target"@) == Some(marker),
        value_request(marker, None).get("callstack"@) is None,
{
    broadcast use crate::json::group_object_reads;

    reveal_strlit("target");
    reveal_strlit("callstack");
    assert("target"@.len() == 6 && "callstack"@.len() == 9);
}

/// A failed check of a reload names the request that failed and why, and can be tried again.
pub proof fn law_a_failed_check_names_its_request(request: Seq<char>, error: Seq<char>)
    ensures
        health_error(request, error).message == "reload health check failed at "@ + request + ": "@
            + error,
        health_error(request, error).data is Some,
        health_error(request, error).data->0.text("kind"@) == Some("ReloadHealthCheckFailed"@),
        health_error(request, error).data->0.text("request"@) == Some(request),
        health_error(request, error).data->0.text("message"@) == Some(error),
        health_error(request, error).data->0.flag("retryable"@) == Some(true),
{
    broadcast use crate::json::group_object_reads;

    reveal_strlit("kind");
    reveal_strlit("request");
    reveal_strlit("message");
    reveal_strlit("retryable");
    assert("kind"@.len() == 4 && "request"@.len() == 7);
    assert("message"@.len() == 7 && "retryable"@.len() == 9);
    assert("request"@[0] != "message"@[0]);
}

/// What is listed tells its name, its signature under the key that is asked for, and its place.
pub proof fn law_what_is_listed_tells_its_place(
    name: Seq<char>,
    signature: Seq<char>,
    file: Option<Seq<char>>,
    line: Option<int>,
)
    ensures
        ({
            let f = listed(name, "signature"@, signature, file, line);
            &&& f.text("name"@) == Some(name)
            &&& f.text("signature"@) == Some(signature)
            &&& f.get("file"@) == Some(JsonView::opt_text(file))
            &&& f.get("line"@) == Some(JsonView::opt_int(line))
        }),
        listed(name, "type"@, signature, file, line).text("type"@) == Some(signature),
        listed(name, "type"@, signature, file, line).text("name"@) == Some(name),
{
    broadcast use crate::json::group_object_reads;

    reveal_strlit("name");
    reveal_strlit("signature");
    reveal_strlit("type");
    reveal_strlit("file");
    reveal_strlit("line");
    assert("name"@.len() == 4 && "signature"@.len() == 9);
    assert("type"@.len() == 4 && "file"@.len() == 4);
    assert("line"@.len() == 4);
    assert("name"@[0] != "type"@[0]);
    assert("name"@[0] != "file"@[0]);
    assert("name"@[0] != "line"@[0]);
    assert("type"@[0] != "file"@[0]);
    assert("type"@[0] != "line"@[0]);
    assert("file"@[0] != "line"@[0]);
}

/// A status and a function can be asked for among conclusions alone, and not together.
pub proof fn law_filters_are_for_conclusions(params: ListParams)
    ensures
        params.status is Some && params.kind != ListKind::Conclusions ==> list_complaint(params)
            == Some("status is only supported for kind=\"conclusions\""@),
        params.status is None && params.function is Some && params.kind != ListKind::Conclusions
            ==> list_complaint(params) == Some(
            "function is only supported for kind=\"conclusions\""@,
        ),
        params.status is Some && params.function is Some && params.kind == ListKind::Conclusions
            ==> list_complaint(params) == Some("status cannot be combined with function"@),
        params.status is None && params.function is None ==> list_complaint(params) is None,
        params.kind == ListKind::Conclusions && (params.status is None || params.function is None)
            ==> list_complaint(params) is None,
{
}

} // verus!
