//! The session around Frama-C: which process a name means, when it is started anew, how it is
//! called, what it said, and how answers are given.

use crate::error::{ToolError, ToolErrorView};
use crate::json::{
    collected, entries, entry_at, law_with_get, lemma_array_view, lemma_entry_at, lemma_models_push,
    lemma_object_view, lemma_take_next, models, opt_value, Json, JsonView,
};
use crate::options::{cli_args, project_cli_args, OptionsView, ProjectLoadOptions};
use crate::order::{lt, text_lt};
use crate::outside::json_pretty;
use crate::stable::{prefix, prefix_text};
use crate::text::{
    cat2, cat3, cat4, cat5, decimal, decimal_text, opt_string, opt_text, own_all, owned, pieces,
    same, same_texts, split_once, split_once_spec, texts,
};
use crate::types::{FailureType, InjectionFailure, RunWpParams};
use crate::version::{floor_text, min_frama_c_version};
use crate::wpconfig::{
    as_str_of, asked_cache, cache_complaint, cache_mode, effective_par, effective_timeout,
    effective_wp_cache, effective_wp_par_from, effective_wp_timeout_from, plugin_config, used_model,
    wp_plugin_config, WpEnvironment,
};
use crate::wpmodel::{default_wp_model, models_complaint, ModelsView, WpModelSupport};
use vstd::prelude::*;

verus! {

// ---------------------------------------------------------------------------
// Which process a name means
// ---------------------------------------------------------------------------

/// Which process the name of a function means.
pub enum FunctionScope {
    /// The one that holds the project.
    Main(String),
    /// That of a sandbox.
    Sandbox { experiment_id: String, function: String },
}

/// Which process the name of a function means, as a mathematical object.
pub enum ScopeView {
    Main(Seq<char>),
    Sandbox { experiment_id: Seq<char>, function: Seq<char> },
}

impl View for FunctionScope {
    type V = ScopeView;

    open spec fn view(&self) -> ScopeView {
        match self {
            FunctionScope::Main(f) => ScopeView::Main(f@),
            FunctionScope::Sandbox { experiment_id, function } => ScopeView::Sandbox {
                experiment_id: experiment_id@,
                function: function@,
            },
        }
    }
}

/// Which process the name of a function means: the sandbox that is named before a colon.
pub open spec fn scope_of(function: Seq<char>) -> ScopeView {
    match split_once_spec(function, ":"@) {
        Some((experiment_id, name)) => ScopeView::Sandbox { experiment_id, function: name },
        None => ScopeView::Main(function),
    }
}

/// Which process the name of a function means.
pub fn scope_for_function(function: &str) -> (r: FunctionScope)
    ensures
        r@ == scope_of(function@),
{
    match split_once(function, ":") {
        Some((experiment_id, name)) => FunctionScope::Sandbox { experiment_id, function: name },
        None => FunctionScope::Main(owned(function)),
    }
}

/// Why a name does not belong to a sandbox, if it does not.
pub open spec fn target_complaint(name: Seq<char>, experiment: Seq<char>) -> Option<Seq<char>> {
    match scope_of(name) {
        ScopeView::Sandbox { experiment_id, function } => if experiment_id == experiment {
            None
        } else {
            Some(
                "function '"@ + name + "' belongs to sandbox '"@ + experiment_id + (
                "', expected '"@ + experiment + "'"@),
            )
        },
        ScopeView::Main(_) => Some(
            "function '"@ + name + "' must include experiment_id prefix"@,
        ),
    }
}

/// Why the first of some names that does not belong to a sandbox does not.
pub open spec fn targets_complaint(
    names: Seq<Seq<char>>,
    experiment: Seq<char>,
    i: int,
) -> Option<Seq<char>>
    decreases names.len() - i,
{
    if i < 0 || i >= names.len() {
        None
    } else {
        match target_complaint(names[i], experiment) {
            Some(c) => Some(c),
            None => targets_complaint(names, experiment, i + 1),
        }
    }
}

/// The name of a function in its sandbox.
pub open spec fn target_of(name: Seq<char>) -> Seq<char> {
    match scope_of(name) {
        ScopeView::Sandbox { experiment_id, function } => function,
        ScopeView::Main(f) => f,
    }
}

/// The sandbox that a name means, or nothing.
pub open spec fn sandbox_of(name: Seq<char>) -> Option<Seq<char>> {
    match scope_of(name) {
        ScopeView::Sandbox { experiment_id, function } => Some(experiment_id),
        ScopeView::Main(_) => None,
    }
}

/// The sandbox that some names mean, and their functions in it; or why they do not mean one.
pub open spec fn sandbox_run(names: Option<Seq<Seq<char>>>) -> Result<
    (Seq<char>, Seq<Seq<char>>),
    Seq<char>,
> {
    match names {
        None => Err("functions required for sandbox WP"@),
        Some(v) => match sandbox_of(v[0]) {
            None => Err("sandbox WP needs a sandbox-prefixed name like exp42:foo"@),
            Some(experiment) => match targets_complaint(v, experiment, 0) {
                Some(c) => Err(c),
                None => Ok((experiment, v.map_values(|n: Seq<char>| target_of(n)))),
            },
        },
    }
}

/// The sandbox that some names mean, and their functions in it. All of them must be in one
/// sandbox.
pub fn sandbox_targets(names: &Option<Vec<String>>) -> (r: Result<(String, Vec<String>), ToolError>)
    requires
        names is Some ==> names->0@.len() > 0,
    ensures
        match r {
            Ok((experiment, targets)) => sandbox_run(crate::reload::opt_texts(*names)) == Ok::<
                _,
                Seq<char>,
            >((experiment@, texts(targets@))),
            Err(e) => {
                &&& sandbox_run(crate::reload::opt_texts(*names)) is Err
                &&& e@ == ToolErrorView::invalid(
                    sandbox_run(crate::reload::opt_texts(*names))->Err_0,
                )
            },
        },
{
    let list = match names {
        Some(v) => v,
        None => {
            return Err(ToolError::invalid(owned("functions required for sandbox WP")));
        },
    };
    let ghost all = texts(list@);
    assert(all[0] == list@[0]@);
    let experiment = match scope_for_function(list[0].as_str()) {
        FunctionScope::Sandbox { experiment_id, function: _ } => experiment_id,
        FunctionScope::Main(_) => {
            return Err(
                ToolError::invalid(
                    owned("sandbox WP needs a sandbox-prefixed name like exp42:foo"),
                ),
            );
        },
    };
    let mut out: Vec<String> = Vec::new();
    let mut i: usize = 0;
    while i < list.len()
        invariant
            i <= list@.len(),
            all == texts(list@),
            targets_complaint(all, experiment@, 0) == targets_complaint(
                all,
                experiment@,
                i as int,
            ),
            out@.len() == i,
            forall|k: int| 0 <= k < i ==> (#[trigger] out@[k])@ == target_of(all[k]),
            sandbox_of(all[0]) == Some(experiment@),
            crate::reload::opt_texts(*names) == Some(all),
        decreases list@.len() - i,
    {
        let name = list[i].as_str();
        assert(all[i as int] == name@);
        match scope_for_function(name) {
            FunctionScope::Sandbox { experiment_id, function } => {
                if same(experiment_id.as_str(), experiment.as_str()) {
                    out.push(function);
                } else {
                    let tail = cat3("', expected '", experiment.as_str(), "'");
                    return Err(
                        ToolError::invalid(
                            cat5(
                                "function '",
                                name,
                                "' belongs to sandbox '",
                                experiment_id.as_str(),
                                tail.as_str(),
                            ),
                        ),
                    );
                }
            },
            FunctionScope::Main(_) => {
                return Err(
                    ToolError::invalid(
                        cat3("function '", name, "' must include experiment_id prefix"),
                    ),
                );
            },
        }
        i = i + 1;
    }
    assert(all.len() == list@.len());
    assert(texts(out@) =~= all.map_values(|n: Seq<char>| target_of(n)));
    Ok((experiment, out))
}

/// The marker under which a function is declared, by the first entry that names it and has one.
pub open spec fn decl_from(functions: Seq<JsonView>, name: Seq<char>, i: int) -> Option<Seq<char>>
    decreases functions.len() - i,
{
    if i < 0 || i >= functions.len() {
        None
    } else if functions[i].text("name"@) == Some(name) && functions[i].text("decl"@) is Some {
        functions[i].text("decl"@)
    } else {
        decl_from(functions, name, i + 1)
    }
}

/// The marker under which a function is declared.
pub fn decl_marker(functions: &Vec<Json>, name: &str) -> (r: Option<String>)
    ensures
        opt_string(r) == decl_from(models(functions@), name@, 0),
{
    let ghost all = models(functions@);
    let mut i: usize = 0;
    while i < functions.len()
        invariant
            i <= functions@.len(),
            all == models(functions@),
            decl_from(all, name@, 0) == decl_from(all, name@, i as int),
        decreases functions@.len() - i,
    {
        assert(all[i as int] == functions@[i as int]@);
        let named = match functions[i].text("name") {
            Some(n) => same(n, name),
            None => false,
        };
        if named {
            match functions[i].text("decl") {
                Some(d) => {
                    return Some(owned(d));
                },
                None => {},
            }
        }
        i = i + 1;
    }
    assert(all.len() == functions@.len());
    None
}

/// The first name from `i` on that is declared nowhere.
pub open spec fn undeclared_from(functions: Seq<JsonView>, names: Seq<Seq<char>>, i: int) -> Option<
    Seq<char>,
>
    decreases names.len() - i,
{
    if i < 0 || i >= names.len() {
        None
    } else if decl_from(functions, names[i], 0) is None {
        Some(names[i])
    } else {
        undeclared_from(functions, names, i + 1)
    }
}

/// The markers under which functions are declared, or the first that is declared nowhere. All of
/// them are found before any proof starts, because a run that stopped half-way could not be told
/// from a complete one.
pub fn decl_markers(functions: &Vec<Json>, names: &Vec<String>) -> (r: Result<Vec<String>, String>)
    ensures
        match r {
            Ok(v) => {
                &&& undeclared_from(models(functions@), texts(names@), 0) is None
                &&& texts(v@) == texts(names@).map_values(
                    |n: Seq<char>| decl_from(models(functions@), n, 0)->0,
                )
            },
            Err(name) => undeclared_from(models(functions@), texts(names@), 0) == Some(name@),
        },
{
    let ghost all = texts(names@);
    let ghost fs = models(functions@);
    let mut out: Vec<String> = Vec::new();
    let mut i: usize = 0;
    while i < names.len()
        invariant
            i <= names@.len(),
            all == texts(names@),
            fs == models(functions@),
            undeclared_from(fs, all, 0) == undeclared_from(fs, all, i as int),
            out@.len() == i,
            forall|k: int| 0 <= k < i ==> (#[trigger] out@[k])@ == decl_from(fs, all[k], 0)->0,
        decreases names@.len() - i,
    {
        assert(all[i as int] == names@[i as int]@);
        match decl_marker(functions, names[i].as_str()) {
            Some(d) => {
                out.push(d);
            },
            None => {
                return Err(owned(names[i].as_str()));
            },
        }
        i = i + 1;
    }
    assert(all.len() == names@.len());
    assert(texts(out@) =~= all.map_values(|n: Seq<char>| decl_from(fs, n, 0)->0));
    Ok(out)
}

// ---------------------------------------------------------------------------
// When Frama-C is started anew
// ---------------------------------------------------------------------------

/// What the process that holds the project was started with.
pub struct MainInstance {
    /// Whether a load has left it in a state that no load can mend.
    pub poisoned: bool,
    /// Whether runtime checks were generated.
    pub with_rte: bool,
    /// The options of the project.
    pub project_options: ProjectLoadOptions,
    /// The files that it has loaded.
    pub files: Vec<String>,
}

/// Whether Frama-C is started anew: runtime checks and options are flags of its command line, and
/// a process or a transport that is poisoned cannot be used again.
pub open spec fn respawns(
    instance: Option<MainInstance>,
    rte: bool,
    options: OptionsView,
    transport_poisoned: bool,
) -> bool {
    match instance {
        None => true,
        Some(s) => s.poisoned || s.with_rte != rte || s.project_options@ != options
            || transport_poisoned,
    }
}

/// Whether two sets of options are the same.
pub fn same_options(a: &ProjectLoadOptions, b: &ProjectLoadOptions) -> (r: bool)
    ensures
        r == (a@ == b@),
{
    same_texts(&a.include_paths, &b.include_paths) && same_texts(
        &a.isystem_paths,
        &b.isystem_paths,
    ) && a.nostdinc == b.nostdinc && same_texts(&a.defines, &b.defines)
        && same_texts(&a.force_includes, &b.force_includes) && crate::markers::same_opt(
        &a.machdep,
        &b.machdep,
    ) && crate::markers::same_opt(&a.compilation_database, &b.compilation_database)
}

/// Whether Frama-C is started anew.
pub fn needs_respawn(
    instance: &Option<MainInstance>,
    rte: bool,
    options: &ProjectLoadOptions,
    transport_poisoned: bool,
) -> (r: bool)
    ensures
        r == respawns(*instance, rte, options@, transport_poisoned),
{
    match instance {
        None => true,
        Some(s) => s.poisoned || s.with_rte != rte || !same_options(&s.project_options, options)
            || transport_poisoned,
    }
}

/// The process that holds the project, where there is one, and whether a project is loaded.
pub struct MainSession {
    pub instance: Option<MainInstance>,
    pub project_loaded: bool,
}

/// The process that holds the project, as a mathematical object.
#[verifier::ext_equal]
pub struct MainView {
    pub poisoned: bool,
    pub with_rte: bool,
    pub options: OptionsView,
    pub files: Seq<Seq<char>>,
}

impl View for MainInstance {
    type V = MainView;

    open spec fn view(&self) -> MainView {
        MainView {
            poisoned: self.poisoned,
            with_rte: self.with_rte,
            options: self.project_options@,
            files: texts(self.files@),
        }
    }
}

/// The process that holds the project and whether one is loaded, as views.
pub open spec fn session_view(s: MainSession) -> (Option<MainView>, bool) {
    (
        match s.instance {
            Some(i) => Some(i@),
            None => None,
        },
        s.project_loaded,
    )
}

/// What became of a load.
#[derive(Clone, Copy, PartialEq, Eq, Debug, Structural)]
pub enum LoadOutcome {
    /// The running process has loaded the files.
    Reloaded,
    /// The running process has not loaded the files.
    ReloadFailed,
    /// A new process has loaded the files.
    Respawned,
    /// No new process could be started.
    SpawnFailed,
}

/// What is known after a load. One that failed in a running process poisons it, so that this call
/// reports its own error and the next one starts anew. A process that was to be replaced stays
/// until the new one is there.
pub open spec fn after_load(
    s: (Option<MainView>, bool),
    files: Seq<Seq<char>>,
    rte: bool,
    options: OptionsView,
    outcome: LoadOutcome,
) -> (Option<MainView>, bool) {
    match outcome {
        LoadOutcome::Reloaded => (
            match s.0 {
                Some(i) => Some(MainView { files, ..i }),
                None => None,
            },
            true,
        ),
        LoadOutcome::ReloadFailed => (
            match s.0 {
                Some(i) => Some(MainView { poisoned: true, ..i }),
                None => None,
            },
            false,
        ),
        LoadOutcome::Respawned => (
            Some(MainView { poisoned: false, with_rte: rte, options, files }),
            true,
        ),
        LoadOutcome::SpawnFailed => s,
    }
}

/// What is known after a load.
pub fn ensure_main_spawned(
    session: MainSession,
    files: Vec<String>,
    rte: bool,
    options: ProjectLoadOptions,
    outcome: LoadOutcome,
) -> (r: MainSession)
    ensures
        session_view(r) == after_load(
            session_view(session),
            texts(files@),
            rte,
            options@,
            outcome,
        ),
{
    let MainSession { instance, project_loaded } = session;
    match outcome {
        LoadOutcome::Reloaded => {
            let instance = match instance {
                Some(i) => Some(MainInstance { files, ..i }),
                None => None,
            };
            MainSession { instance, project_loaded: true }
        },
        LoadOutcome::ReloadFailed => {
            let instance = match instance {
                Some(i) => Some(MainInstance { poisoned: true, ..i }),
                None => None,
            };
            MainSession { instance, project_loaded: false }
        },
        LoadOutcome::Respawned => MainSession {
            instance: Some(
                MainInstance { poisoned: false, with_rte: rte, project_options: options, files },
            ),
            project_loaded: true,
        },
        LoadOutcome::SpawnFailed => MainSession { instance, project_loaded },
    }
}

/// A process is kept exactly for a load like the one it was started with.
pub proof fn law_a_sound_process_is_kept(s: MainInstance, rte: bool, options: OptionsView)
    ensures
        !respawns(Some(s), rte, options, false) <==> !s.poisoned && s.with_rte == rte
            && s.project_options@ == options,
        s.project_options@.nostdinc != options.nostdinc ==> respawns(Some(s), rte, options, false),
        s.project_options@.isystem_paths != options.isystem_paths ==> respawns(
            Some(s),
            rte,
            options,
            false,
        ),
        respawns(Some(s), rte, options, true),
        respawns(None, rte, options, false),
{
}

/// After a load that failed in a running process the next one starts anew, whatever it asks for;
/// after one that succeeded the same load does not; and a process that could not be started leaves
/// everything as it was.
pub proof fn law_the_next_load_recovers(
    s: MainSession,
    after: MainSession,
    files: Seq<Seq<char>>,
    rte: bool,
    options: OptionsView,
    outcome: LoadOutcome,
    next_rte: bool,
    next_options: OptionsView,
)
    requires
        session_view(after) == after_load(session_view(s), files, rte, options, outcome),
        outcome == LoadOutcome::Reloaded ==> !respawns(s.instance, rte, options, false),
    ensures
        outcome == LoadOutcome::ReloadFailed ==> respawns(
            after.instance,
            next_rte,
            next_options,
            false,
        ) && !after.project_loaded,
        outcome == LoadOutcome::Reloaded || outcome == LoadOutcome::Respawned ==> !respawns(
            after.instance,
            rte,
            options,
            false,
        ) && after.project_loaded && after.instance is Some && after.instance->0@.files == files,
        outcome == LoadOutcome::SpawnFailed ==> session_view(after) == session_view(s),
{
}

/// Where the socket of a new process is: one path for each that is started, so that no new process
/// takes one that an old one has not released.
pub fn main_socket_path(server_pid: u32, spawn: u64) -> (r: String)
    ensures
        r@ == "/tmp/frama-c-mcp-"@ + decimal(server_pid as nat) + "-"@ + (decimal(spawn as nat)
            + ".sock"@),
{
    let pid = decimal_text(server_pid as u64);
    let count = decimal_text(spawn);
    let tail = cat2(count.as_str(), ".sock");
    cat4("/tmp/frama-c-mcp-", pid.as_str(), "-", tail.as_str())
}

/// What the logs of the process that holds the project are called.
pub fn main_log_names(server_pid: u32) -> (r: (String, String))
    ensures
        r.0@ == "main-"@ + decimal(server_pid as nat) + ".stdout.log"@,
        r.1@ == "main-"@ + decimal(server_pid as nat) + ".stderr.log"@,
{
    let pid = decimal_text(server_pid as u64);
    (cat3("main-", pid.as_str(), ".stdout.log"), cat3("main-", pid.as_str(), ".stderr.log"))
}

/// What is said where the process that holds the project cannot be reached.
pub fn main_connect_failure(reason: &str, tail: &str) -> (r: String)
    ensures
        r@ == "connect to new frama-c: "@ + reason@ + "\noutput:\n"@ + tail@,
{
    cat4("connect to new frama-c: ", reason, "\noutput:\n", tail)
}

/// What is said where the process of a sandbox cannot be reached.
pub fn sandbox_connect_failure(reason: &str, program: &str, file: &str, tail: &str) -> (r: ToolError)
    ensures
        r@ == ToolErrorView::internal(
            "sandbox connect failed: "@ + reason@ + "\nbinary: "@ + program@ + (
            "\nsandbox_file: "@ + file@ + "\noutput (last 20 lines):\n"@ + tail@),
        ),
{
    let end = cat4("\nsandbox_file: ", file, "\noutput (last 20 lines):\n", tail);
    ToolError::internal(
        cat5("sandbox connect failed: ", reason, "\nbinary: ", program, end.as_str()),
    )
}

// ---------------------------------------------------------------------------
// How Frama-C is called
// ---------------------------------------------------------------------------

/// The arguments that every Frama-C is started with: its socket, and how it proves by default.
pub open spec fn server_args(socket: Seq<char>, provers: Seq<char>) -> Seq<Seq<char>> {
    seq![
        "-server-socket"@,
        socket,
        "-wp-prover"@,
        provers,
        "-wp-model"@,
        "Typed+nocast"@,
    ]
}

/// The command line of the process that holds the project.
pub open spec fn main_line(
    program: Seq<char>,
    files: Seq<Seq<char>>,
    rte: bool,
    options: OptionsView,
    socket: Seq<char>,
    provers: Seq<char>,
) -> Seq<Seq<char>> {
    seq![program] + cli_args(options) + files + seq!["-load-module"@, "ast_utils_plugin"@]
        + server_args(socket, provers) + (if rte {
        seq!["-rte"@]
    } else {
        Seq::empty()
    })
}

/// The command line of the process of a sandbox.
pub open spec fn sandbox_line(
    program: Seq<char>,
    file: Seq<char>,
    socket: Seq<char>,
    provers: Seq<char>,
) -> Seq<Seq<char>> {
    seq![program, file, "-rte"@, "-keep-unused-functions"@, "all"@, "-keep-unused-types"@]
        + server_args(socket, provers) + seq!["-kernel-warn-key"@, "annot-error=feedback"@]
}

/// The command line of the process that a self check probes.
pub open spec fn probe_line(
    program: Seq<char>,
    file: Seq<char>,
    socket: Seq<char>,
    provers: Seq<char>,
) -> Seq<Seq<char>> {
    seq![program, file, "-load-module"@, "ast_utils_plugin"@] + server_args(socket, provers)
}

pub(crate) fn append_texts(out: &mut Vec<String>, more: Vec<String>)
    ensures
        texts(final(out)@) == texts(old(out)@) + texts(more@),
{
    let ghost (a, b) = (out@, more@);
    let mut more = more;
    out.append(&mut more);
    assert(texts(out@) =~= texts(a) + texts(b));
}

fn server_arguments(socket: &str, provers: &str) -> (r: Vec<String>)
    ensures
        texts(r@) == server_args(socket@, provers@),
{
    let r: Vec<String> = vec![
        owned("-server-socket"),
        owned(socket),
        owned("-wp-prover"),
        owned(provers),
        owned("-wp-model"),
        owned(crate::wpmodel::default_wp_model()),
    ];
    assert(texts(r@) =~= server_args(socket@, provers@));
    r
}

/// The command line of the process that holds the project.
pub fn main_frama_c_command_line(
    program: &str,
    files: &Vec<String>,
    rte: bool,
    options: &ProjectLoadOptions,
    socket: &str,
    provers: &str,
) -> (r: Vec<String>)
    ensures
        texts(r@) == main_line(program@, texts(files@), rte, options@, socket@, provers@),
{
    let mut out: Vec<String> = vec![owned(program)];
    assert(texts(out@) =~= seq![program@]);
    append_texts(&mut out, project_cli_args(options));
    append_texts(&mut out, own_all(files));
    let plugin: Vec<String> = vec![owned("-load-module"), owned("ast_utils_plugin")];
    assert(texts(plugin@) =~= seq!["-load-module"@, "ast_utils_plugin"@]);
    append_texts(&mut out, plugin);
    append_texts(&mut out, server_arguments(socket, provers));
    let ghost before = texts(out@);
    if rte {
        out.push(owned("-rte"));
        assert(texts(out@) =~= before + seq!["-rte"@]);
    } else {
        assert(before =~= before + Seq::empty());
    }
    out
}

/// The command line of the process of a sandbox.
pub fn sandbox_frama_c_command_line(program: &str, file: &str, socket: &str, provers: &str) -> (r:
    Vec<String>)
    ensures
        texts(r@) == sandbox_line(program@, file@, socket@, provers@),
{
    let mut out: Vec<String> = vec![
        owned(program),
        owned(file),
        owned("-rte"),
        owned("-keep-unused-functions"),
        owned("all"),
        owned("-keep-unused-types"),
    ];
    assert(texts(out@) =~= seq![
        program@,
        file@,
        "-rte"@,
        "-keep-unused-functions"@,
        "all"@,
        "-keep-unused-types"@,
    ]);
    append_texts(&mut out, server_arguments(socket, provers));
    let warn: Vec<String> = vec![owned("-kernel-warn-key"), owned("annot-error=feedback")];
    assert(texts(warn@) =~= seq!["-kernel-warn-key"@, "annot-error=feedback"@]);
    append_texts(&mut out, warn);
    out
}

/// The command line of the process that a self check probes.
pub fn probe_frama_c_command_line(program: &str, file: &str, socket: &str, provers: &str) -> (r:
    Vec<String>)
    ensures
        texts(r@) == probe_line(program@, file@, socket@, provers@),
{
    let mut out: Vec<String> = vec![
        owned(program),
        owned(file),
        owned("-load-module"),
        owned("ast_utils_plugin"),
    ];
    assert(texts(out@) =~= seq![program@, file@, "-load-module"@, "ast_utils_plugin"@]);
    append_texts(&mut out, server_arguments(socket, provers));
    out
}

// ---------------------------------------------------------------------------
// How a proof is set up
// ---------------------------------------------------------------------------

/// One step of setting up a proof.
pub enum ConfigStep {
    /// Only these provers are switched on.
    SelectProvers(Vec<String>),
    /// A setting of Frama-C is set.
    Put { request: &'static str, data: Json },
    /// A request of Frama-C is carried out.
    Exec { request: &'static str, data: Json },
    /// The setup ends with an error.
    Fail(ToolError),
}

/// One step of setting up a proof, as a mathematical object.
pub enum ConfigStepView {
    SelectProvers(Seq<Seq<char>>),
    Put(Seq<char>, JsonView),
    Exec(Seq<char>, JsonView),
    Fail(ToolErrorView),
}

impl View for ConfigStep {
    type V = ConfigStepView;

    open spec fn view(&self) -> ConfigStepView {
        match self {
            ConfigStep::SelectProvers(v) => ConfigStepView::SelectProvers(texts(v@)),
            ConfigStep::Put { request, data } => ConfigStepView::Put(request@, data@),
            ConfigStep::Exec { request, data } => ConfigStepView::Exec(request@, data@),
            ConfigStep::Fail(e) => ConfigStepView::Fail(e@),
        }
    }
}

/// Steps, as views.
pub open spec fn step_views(v: Seq<ConfigStep>) -> Seq<ConfigStepView> {
    v.map_values(|s: ConfigStep| s@)
}

/// The last steps of setting up a proof: the model, where it is one that WP knows, the properties
/// and how many provers run at once.
pub open spec fn model_steps(
    p: RunWpParams,
    env: WpEnvironment,
    support: ModelsView,
) -> Seq<ConfigStepView> {
    match models_complaint(support, pieces(used_model(p), ','), 0) {
        Some(e) => seq![ConfigStepView::Fail(ToolErrorView::invalid(e))],
        None => match effective_par(p, opt_string(env.par)) {
            Err(e) => seq![ConfigStepView::Fail(ToolErrorView::invalid(e))],
            Ok(par) => seq![
                ConfigStepView::Exec(
                    "plugins.ast-utils.execSetWpConfig"@,
                    plugin_config(
                        used_model(p),
                        opt_string(p.prop),
                        match par {
                            Some(n) => Some(n as u32),
                            None => None,
                        },
                    ),
                ),
            ],
        },
    }
}

/// The steps of setting up a proof from the mode of the cache on. The mode is set for every run,
/// because settings outlive the run that set them.
pub open spec fn cache_steps(
    p: RunWpParams,
    env: WpEnvironment,
    support: ModelsView,
) -> Seq<ConfigStepView> {
    match cache_mode(asked_cache(p)) {
        None => seq![
            ConfigStepView::Fail(ToolErrorView::invalid(cache_complaint(asked_cache(p)))),
        ],
        Some(mode) => seq![
            ConfigStepView::Put("plugins.wp.setCacheMode"@, JsonView::Str(mode)),
        ] + model_steps(p, env, support),
    }
}

/// The steps of setting up a proof. What was set before an error stays set.
pub open spec fn config_steps(
    p: RunWpParams,
    provers: Option<Seq<Seq<char>>>,
    env: WpEnvironment,
    support: ModelsView,
) -> Seq<ConfigStepView> {
    (match provers {
        Some(v) => seq![ConfigStepView::SelectProvers(v)],
        None => Seq::empty(),
    }) + (match effective_timeout(p, opt_string(env.timeout)) {
        Err(e) => seq![ConfigStepView::Fail(ToolErrorView::invalid(e))],
        Ok(Some(t)) => seq![
            ConfigStepView::Put("plugins.wp.setTimeout"@, JsonView::num(t)),
        ] + cache_steps(p, env, support),
        Ok(None) => cache_steps(p, env, support),
    })
}

fn push_step(out: &mut Vec<ConfigStep>, step: ConfigStep)
    ensures
        step_views(final(out)@) == step_views(old(out)@).push(step@),
{
    let ghost before = out@;
    out.push(step);
    assert(step_views(out@) =~= step_views(before).push(step@));
}

fn push_model_steps(
    out: &mut Vec<ConfigStep>,
    params: &RunWpParams,
    env: &WpEnvironment,
    support: &WpModelSupport,
)
    ensures
        step_views(final(out)@) == step_views(old(out)@) + model_steps(*params, *env, support@),
{
    let ghost start = step_views(out@);
    let model = match &params.model {
        Some(m) => m.as_str(),
        None => default_wp_model(),
    };
    match support.validate(model) {
        Err(e) => {
            push_step(out, ConfigStep::Fail(ToolError::invalid(e)));
        },
        Ok(()) => match effective_wp_par_from(params, as_str_of(&env.par)) {
            Err(e) => {
                push_step(out, ConfigStep::Fail(e));
            },
            Ok(par) => {
                let data = wp_plugin_config(model, &params.prop, par);
                push_step(
                    out,
                    ConfigStep::Exec { request: "plugins.ast-utils.execSetWpConfig", data },
                );
            },
        },
    }
    assert(step_views(out@) =~= start + model_steps(*params, *env, support@));
}

fn push_cache_steps(
    out: &mut Vec<ConfigStep>,
    params: &RunWpParams,
    env: &WpEnvironment,
    support: &WpModelSupport,
)
    ensures
        step_views(final(out)@) == step_views(old(out)@) + cache_steps(*params, *env, support@),
{
    let ghost start = step_views(out@);
    match effective_wp_cache(params) {
        Err(e) => {
            push_step(out, ConfigStep::Fail(e));
        },
        Ok(mode) => {
            push_step(
                out,
                ConfigStep::Put { request: "plugins.wp.setCacheMode", data: Json::str(mode) },
            );
            push_model_steps(out, params, env, support);
        },
    }
    assert(step_views(out@) =~= start + cache_steps(*params, *env, support@));
}

/// The steps of setting up a proof.
pub fn apply_wp_config(
    params: &RunWpParams,
    provers: &Option<Vec<String>>,
    env: &WpEnvironment,
    support: &WpModelSupport,
) -> (r: Vec<ConfigStep>)
    ensures
        step_views(r@) == config_steps(
            *params,
            crate::reload::opt_texts(*provers),
            *env,
            support@,
        ),
{
    let mut out: Vec<ConfigStep> = Vec::new();
    assert(step_views(out@) =~= Seq::empty());
    match provers {
        Some(v) => {
            push_step(&mut out, ConfigStep::SelectProvers(own_all(v)));
        },
        None => {},
    }
    match effective_wp_timeout_from(params, as_str_of(&env.timeout)) {
        Err(e) => {
            push_step(&mut out, ConfigStep::Fail(e));
        },
        Ok(timeout) => {
            match timeout {
                Some(t) => {
                    push_step(
                        &mut out,
                        ConfigStep::Put {
                            request: "plugins.wp.setTimeout",
                            data: Json::num(t as u64),
                        },
                    );
                },
                None => {},
            }
            push_cache_steps(&mut out, params, env, support);
        },
    }
    assert(step_views(out@) =~= config_steps(
        *params,
        crate::reload::opt_texts(*provers),
        *env,
        support@,
    ));
    out
}

/// What WP says of its models, on both streams of its help.
pub fn wp_help_text(result: &Json) -> (r: String)
    ensures
        r@ == crate::json::text_or(result@.text("stdout"@), ""@) + "\n"@ + crate::json::text_or(
            result@.text("stderr"@),
            ""@,
        ),
{
    cat3(
        crate::json::str_or(result.text("stdout"), ""),
        "\n",
        crate::json::str_or(result.text("stderr"), ""),
    )
}

/// What is said of a profile that is named for a sandbox.
pub const PROFILE_IN_SANDBOX: &'static str =
    "verify_profile cannot be used for a sandbox run; omit it to prove outside the profile";

/// What is said of a profile beside settings that would replace its own.
pub const PROFILE_OVERRIDDEN: &'static str =
    "verify_profile decides model, provers and timeout; omit model, prover, provers and timeout, or omit verify_profile to deviate from it";

/// Whether a run names settings that a profile decides.
pub open spec fn overrides_profile(p: RunWpParams) -> bool {
    p.model is Some || p.prover is Some || p.provers is Some || p.timeout is Some
}

/// What a run under a profile is refused with, as far as its parameters alone show it.
pub open spec fn profile_complaint(p: RunWpParams, sandbox: bool) -> Option<Seq<char>> {
    if p.verify_profile is None {
        None
    } else if sandbox {
        Some(PROFILE_IN_SANDBOX@)
    } else if overrides_profile(p) {
        Some(PROFILE_OVERRIDDEN@)
    } else {
        None
    }
}

/// Why a run cannot be made under the profile that it names: a goal that is discharged under other
/// settings is no evidence about the target of the profile.
pub fn profile_conflict(p: &RunWpParams, sandbox: bool) -> (r: Option<ToolError>)
    ensures
        r is Some <==> p.verify_profile is Some && (sandbox || overrides_profile(*p)),
        match r {
            Some(e) => profile_complaint(*p, sandbox) is Some && e@ == ToolErrorView::invalid(
                profile_complaint(*p, sandbox)->0,
            ),
            None => profile_complaint(*p, sandbox) is None,
        },
{
    if p.verify_profile.is_none() {
        None
    } else if sandbox {
        Some(ToolError::invalid(owned(PROFILE_IN_SANDBOX)))
    } else if p.model.is_some() || p.prover.is_some() || p.provers.is_some()
        || p.timeout.is_some() {
        Some(ToolError::invalid(owned(PROFILE_OVERRIDDEN)))
    } else {
        None
    }
}

/// How many seconds the proofs are waited for at most, and where nothing is asked.
pub const DRAIN_LIMIT_SECONDS: u64 = 600;

/// How many seconds the proofs are waited for.
pub fn drain_budget_seconds(asked: Option<u64>) -> (r: u64)
    ensures
        r == (if asked is Some && asked->0 < DRAIN_LIMIT_SECONDS {
            asked->0
        } else {
            DRAIN_LIMIT_SECONDS
        }),
        r == 600 || asked == Some(r) && r < 600,
        asked is Some && asked->0 <= 600 ==> r == asked->0,
{
    match asked {
        Some(n) => if n < DRAIN_LIMIT_SECONDS {
            n
        } else {
            DRAIN_LIMIT_SECONDS
        },
        None => DRAIN_LIMIT_SECONDS,
    }
}

/// What a request to prove comes to.
#[derive(PartialEq, Eq, Structural, Clone, Copy)]
pub enum RunPlan {
    /// The queue of proofs is emptied.
    Cancel,
    /// The functions of a sandbox are proved.
    Sandbox,
    /// Functions of the project are proved.
    Main,
}

/// What is said of a sandbox whose queue is to be emptied.
pub const CANCEL_IN_SANDBOX: &'static str =
    "cancel empties the queue of the main instance; it cannot name a sandbox";

/// What is said of smoke tests without provers.
pub const SMOKE_WITHOUT_PROVERS: &'static str = "smoke requires provers";

/// Whether the first of some names means a sandbox.
pub open spec fn starts_in_sandbox(names: Option<Seq<Seq<char>>>) -> bool {
    match names {
        Some(v) => v.len() > 0 && sandbox_of(v[0]) is Some,
        None => false,
    }
}

/// What a request to prove is refused with, as far as its parameters alone show it.
pub open spec fn run_complaint(p: RunWpParams) -> Option<Seq<char>> {
    let sandbox = starts_in_sandbox(crate::reload::opt_texts(p.functions));
    if profile_complaint(p, sandbox) is Some {
        profile_complaint(p, sandbox)
    } else if p.cancel == Some(true) && sandbox {
        Some(CANCEL_IN_SANDBOX@)
    } else if p.smoke == Some(true) && p.provers is None {
        Some(SMOKE_WITHOUT_PROVERS@)
    } else {
        None
    }
}

/// What a request to prove comes to where it is not refused.
pub open spec fn planned(p: RunWpParams) -> RunPlan {
    if p.cancel == Some(true) {
        RunPlan::Cancel
    } else if starts_in_sandbox(crate::reload::opt_texts(p.functions)) {
        RunPlan::Sandbox
    } else {
        RunPlan::Main
    }
}

/// What a request to prove comes to.
pub fn run_plan(p: &RunWpParams) -> (r: Result<RunPlan, ToolError>)
    ensures
        match r {
            Ok(plan) => run_complaint(*p) is None && plan == planned(*p),
            Err(e) => run_complaint(*p) is Some && e@ == ToolErrorView::invalid(
                run_complaint(*p)->0,
            ),
        },
{
    let sandbox = match &p.functions {
        Some(names) => if names.len() > 0 {
            assert(texts(names@)[0] == names@[0]@);
            match scope_for_function(names[0].as_str()) {
                FunctionScope::Sandbox { experiment_id, function } => true,
                FunctionScope::Main(_) => false,
            }
        } else {
            false
        },
        None => false,
    };
    match profile_conflict(p, sandbox) {
        Some(e) => {
            return Err(e);
        },
        None => {},
    }
    let cancel = matches!(p.cancel, Some(true));
    if cancel && sandbox {
        return Err(ToolError::invalid(owned(CANCEL_IN_SANDBOX)));
    }
    if matches!(p.smoke, Some(true)) && p.provers.is_none() {
        return Err(ToolError::invalid(owned(SMOKE_WITHOUT_PROVERS)));
    }
    Ok(
        if cancel {
            RunPlan::Cancel
        } else if sandbox {
            RunPlan::Sandbox
        } else {
            RunPlan::Main
        },
    )
}

/// A plan to prove in a sandbox names functions, the first of them in one.
pub proof fn law_a_sandbox_run_names_its_functions(p: RunWpParams)
    requires
        run_complaint(p) is None,
        planned(p) == RunPlan::Sandbox,
    ensures
        p.functions is Some,
        p.functions->0@.len() > 0,
        p.verify_profile is None,
{
}

/// The function that a report is about: the only one that was asked for.
pub fn report_function(names: &Vec<String>, targets: &Vec<String>) -> (r: Option<String>)
    requires
        names@.len() == targets@.len(),
    ensures
        opt_string(r) == (if names@.len() == 1 {
            Some(targets@[0]@)
        } else {
            None
        }),
{
    if names.len() == 1 {
        Some(owned(targets[0].as_str()))
    } else {
        None
    }
}

// ---------------------------------------------------------------------------
// What Frama-C says
// ---------------------------------------------------------------------------

/// The most messages that come in one batch, so that a full batch means that more may wait.
pub const LOG_FLUSH_LIMIT: usize = 100;

/// How many batches are asked for before the rest is left.
pub const LOG_FLUSH_ROUNDS: usize = 20;

/// Whether a message says that something is wrong. The others narrate.
pub open spec fn is_diagnostic(message: JsonView) -> bool {
    message.text("kind"@) == Some("ERROR"@) || message.text("kind"@) == Some("WARNING"@)
        || message.text("kind"@) == Some("FAILURE"@)
}

/// Whether a message says that something is wrong.
pub fn is_diagnostic_message(message: &Json) -> (r: bool)
    ensures
        r == is_diagnostic(message@),
{
    match message.text("kind") {
        Some(k) => same(k, "ERROR") || same(k, "WARNING") || same(k, "FAILURE"),
        None => false,
    }
}

/// The messages among some that say that something is wrong.
pub open spec fn diagnostics_in(batch: Seq<JsonView>) -> Seq<JsonView>
    decreases batch.len(),
{
    if batch.len() == 0 {
        Seq::empty()
    } else if is_diagnostic(batch.last()) {
        diagnostics_in(batch.drop_last()).push(batch.last())
    } else {
        diagnostics_in(batch.drop_last())
    }
}

/// Whether a drain goes on, is done, or is cut short.
#[derive(Clone, Copy, PartialEq, Eq, Debug, Structural)]
pub enum DrainState {
    More,
    Complete,
    Truncated,
}

/// What becomes of a drain after a batch, of which `rounds` came before. What is no batch cuts it
/// short, a short batch ends it, and so does the last round.
pub open spec fn drain_state(batch: Option<JsonView>, rounds: int) -> DrainState {
    match batch {
        None => DrainState::Truncated,
        Some(v) => match v.as_list() {
            None => DrainState::Truncated,
            Some(items) => if items.len() < LOG_FLUSH_LIMIT {
                DrainState::Complete
            } else if rounds + 1 >= LOG_FLUSH_ROUNDS {
                DrainState::Truncated
            } else {
                DrainState::More
            },
        },
    }
}

/// The messages of a batch that are kept.
pub open spec fn kept_of(batch: Option<JsonView>) -> Seq<JsonView> {
    match batch {
        None => Seq::empty(),
        Some(v) => match v.as_list() {
            None => Seq::empty(),
            Some(items) => diagnostics_in(items),
        },
    }
}

/// Takes in one batch of messages, of which `rounds` came before, and says whether the drain goes
/// on.
pub fn drain_batch(messages: &mut Vec<Json>, batch: &Option<Json>, rounds: usize) -> (r: DrainState)
    requires
        rounds < LOG_FLUSH_ROUNDS,
    ensures
        models(final(messages)@) == models(old(messages)@) + kept_of(opt_value(*batch)),
        r == drain_state(opt_value(*batch), rounds as int),
{
    let ghost start = models(messages@);
    let items = match batch {
        None => {
            assert(start =~= start + kept_of(opt_value(*batch)));
            return DrainState::Truncated;
        },
        Some(v) => match v.as_list() {
            Some(items) => items,
            None => {
                assert(start =~= start + kept_of(opt_value(*batch)));
                return DrainState::Truncated;
            },
        },
    };
    let ghost all = models(items@);
    let mut i: usize = 0;
    assert(all.subrange(0, 0) =~= Seq::empty());
    assert(start =~= start + diagnostics_in(all.subrange(0, 0)));
    while i < items.len()
        invariant
            i <= items@.len(),
            all == models(items@),
            models(messages@) == start + diagnostics_in(all.subrange(0, i as int)),
        decreases items@.len() - i,
    {
        proof {
            lemma_take_next(all, i as int);
            assert(all[i as int] == items@[i as int]@);
        }
        if is_diagnostic_message(&items[i]) {
            let m = items[i].copy();
            proof {
                lemma_models_push(messages@, m);
            }
            messages.push(m);
            assert(models(messages@) =~= start + diagnostics_in(all.subrange(0, i as int + 1)));
        }
        i = i + 1;
    }
    assert(all.subrange(0, i as int) =~= all);
    assert(all.len() == items@.len());
    if items.len() < LOG_FLUSH_LIMIT {
        DrainState::Complete
    } else if rounds + 1 >= LOG_FLUSH_ROUNDS {
        DrainState::Truncated
    } else {
        DrainState::More
    }
}

/// How many goals WP has scheduled and not finished. Both counters must be there: what is missing
/// one says nothing, and must not read as nothing pending.
pub open spec fn pending(tasks: JsonView) -> Option<int> {
    match (tasks.nat_at("todo"@), tasks.nat_at("active"@)) {
        (Some(a), Some(b)) => Some(a + b),
        _ => None,
    }
}

/// How many goals WP has scheduled and not finished.
pub fn wp_pending_task_count(tasks: &Json) -> (r: Option<u64>)
    requires
        pending(tasks@) is Some ==> pending(tasks@)->0 <= u64::MAX,
    ensures
        match r {
            Some(n) => pending(tasks@) == Some(n as int),
            None => pending(tasks@) is None,
        },
{
    match (tasks.nat_at("todo"), tasks.nat_at("active")) {
        (Some(a), Some(b)) => Some(a + b),
        _ => None,
    }
}

/// What is said of proofs that go on.
pub const STILL_PROVING: &'static str =
    "WP is still proving. The goals below are what existed when the wait ran out.";

/// What a wait for WP comes to.
pub enum DrainStep {
    /// It goes on.
    Wait,
    /// It ends with this.
    Done(Json),
}

/// What is answered where a wait for WP ends with so many goals pending.
pub open spec fn drained(tasks: JsonView, left: int, budget_seconds: int) -> JsonView {
    let noted = tasks.with("drained"@, JsonView::Bool(left == 0));
    if left > 0 {
        noted.with(
            "left_running"@,
            JsonView::object().with("pending"@, JsonView::num(left)).with(
                "waited_seconds"@,
                JsonView::num(budget_seconds),
            ).with("note"@, JsonView::Str(STILL_PROVING@)),
        )
    } else {
        noted
    }
}

/// Whether a wait for WP goes on, and what it ends with. Where it cannot be told how much is
/// pending, nothing is claimed.
pub fn drain_wp_step(tasks: Json, past_deadline: bool, budget_seconds: u64) -> (r: DrainStep)
    requires
        pending(tasks@) is Some ==> pending(tasks@)->0 <= u64::MAX,
    ensures
        match r {
            DrainStep::Wait => pending(tasks@) is Some && pending(tasks@)->0 > 0 && !past_deadline,
            DrainStep::Done(v) => match pending(tasks@) {
                None => v@ == tasks@,
                Some(left) => (left == 0 || past_deadline) && v@ == drained(
                    tasks@,
                    left,
                    budget_seconds as int,
                ),
            },
        },
{
    let left = match wp_pending_task_count(&tasks) {
        Some(n) => n,
        None => {
            return DrainStep::Done(tasks);
        },
    };
    if left > 0 && !past_deadline {
        return DrainStep::Wait;
    }
    let noted = tasks.with("drained", Json::Bool(left == 0));
    if left > 0 {
        DrainStep::Done(
            noted.with(
                "left_running",
                Json::object().with("pending", Json::num(left)).with(
                    "waited_seconds",
                    Json::num(budget_seconds),
                ).with("note", Json::str(STILL_PROVING)),
            ),
        )
    } else {
        DrainStep::Done(noted)
    }
}

/// A wait that ends says that WP is done exactly where nothing is pending, and where something is,
/// it says how much.
pub proof fn law_drained_means_nothing_is_pending(tasks: JsonView, left: int, budget_seconds: int)
    requires
        pending(tasks) == Some(left),
        left >= 0,
    ensures
        drained(tasks, left, budget_seconds).flag("drained"@) == Some(left == 0),
        left > 0 ==> drained(tasks, left, budget_seconds).at("left_running"@, "pending"@) == Some(
            JsonView::num(left),
        ),
{
    reveal_strlit("drained");
    reveal_strlit("left_running");
    reveal_strlit("pending");
    reveal_strlit("waited_seconds");
    reveal_strlit("note");
    assert("drained"@.len() == 7 && "left_running"@.len() == 12);
    assert("pending"@.len() == 7 && "waited_seconds"@.len() == 14 && "note"@.len() == 4);
    let flag = JsonView::Bool(left == 0);
    let noted = tasks.with("drained"@, flag);
    law_with_get(tasks, "drained"@, flag, "drained"@);
    let p = JsonView::num(left);
    let one = JsonView::object().with("pending"@, p);
    let w = JsonView::num(budget_seconds);
    let two = one.with("waited_seconds"@, w);
    let note = JsonView::Str(STILL_PROVING@);
    let more = two.with("note"@, note);
    law_with_get(JsonView::object(), "pending"@, p, "pending"@);
    law_with_get(one, "waited_seconds"@, w, "pending"@);
    law_with_get(two, "note"@, note, "pending"@);
    law_with_get(noted, "left_running"@, more, "drained"@);
    law_with_get(noted, "left_running"@, more, "left_running"@);
}

/// How many milliseconds the next pause takes: twice as many, up to half a second.
pub fn next_backoff(ms: u64) -> (r: u64)
    ensures
        r == (if ms >= 250 {
            500u64
        } else {
            (2 * ms) as u64
        }),
{
    if ms >= 250 {
        500
    } else {
        2 * ms
    }
}

// ---------------------------------------------------------------------------
// Loops
// ---------------------------------------------------------------------------

/// The statement of a loop, where a node is one.
pub open spec fn own_loop(node: JsonView) -> Seq<int> {
    if node.text("kind"@) == Some("loop"@) {
        match node.int_at("sid"@) {
            Some(sid) => seq![sid],
            None => Seq::empty(),
        }
    } else {
        Seq::empty()
    }
}

/// Whether a key of a branching node is walked before the others.
pub open spec fn walked_first(key: Seq<char>) -> bool {
    key == "cond"@ || key == "then_body"@ || key == "else_body"@
}

/// The loops of a program tree, in the order of the source. Of a branch, the condition comes
/// first, and what is done where it holds comes before what is done where it does not.
pub open spec fn loops(node: JsonView) -> Seq<int>
    decreases node,
{
    match node {
        JsonView::Array(s) => list_loops(s),
        JsonView::Object(s) => own_loop(node) + (if entry_at(s, "then_body"@) < s.len()
            && entry_at(s, "else_body"@) < s.len() {
            loops_under(s, "cond"@) + loops_under(s, "then_body"@) + loops_under(s, "else_body"@)
                + entry_loops(s, true)
        } else {
            entry_loops(s, false)
        }),
        _ => Seq::empty(),
    }
}

/// The loops of some nodes.
pub open spec fn list_loops(s: Seq<JsonView>) -> Seq<int>
    decreases s,
{
    if s.len() == 0 {
        Seq::empty()
    } else {
        list_loops(s.drop_last()) + loops(s.last())
    }
}

/// The loops of some entries, without those that a branch walks first where it is one.
pub open spec fn entry_loops(s: Seq<(Seq<char>, JsonView)>, branch: bool) -> Seq<int>
    decreases s,
{
    if s.len() == 0 {
        Seq::empty()
    } else if branch && walked_first(s.last().0) {
        entry_loops(s.drop_last(), branch)
    } else {
        entry_loops(s.drop_last(), branch) + loops(s.last().1)
    }
}

/// The loops under a key.
pub open spec fn loops_under(s: Seq<(Seq<char>, JsonView)>, key: Seq<char>) -> Seq<int>
    decreases s,
{
    let i = entry_at(s, key);
    if 0 <= i < s.len() {
        loops(s[i].1)
    } else {
        Seq::empty()
    }
}

/// Numbers, as views.
pub open spec fn ids(v: Seq<i64>) -> Seq<int> {
    v.map_values(|n: i64| n as int)
}

fn entry_index(v: &Vec<(String, Json)>, key: &str) -> (r: usize)
    ensures
        r == entry_at(entries(v@), key@),
        r <= v@.len(),
{
    let ghost s = entries(v@);
    let mut i: usize = 0;
    proof {
        lemma_entry_at(s, key@);
    }
    while i < v.len() && !same(v[i].0.as_str(), key)
        invariant
            i <= v@.len(),
            s == entries(v@),
            forall|k: int| 0 <= k < i ==> (#[trigger] s[k]).0 != key@,
        decreases v@.len() - i,
    {
        assert(s[i as int] == (v@[i as int].0@, v@[i as int].1@));
        i = i + 1;
    }
    proof {
        lemma_entry_at(s, key@);
        let k = entry_at(s, key@);
        if i < s.len() {
            assert(s[i as int] == (v@[i as int].0@, v@[i as int].1@));
        }
        if k < i {
            assert(s[k].0 != key@);
        }
    }
    i
}

fn collect_list_loops(v: &Vec<Json>, out: &mut Vec<i64>)
    ensures
        ids(final(out)@) == ids(old(out)@) + list_loops(models(v@)),
    decreases v,
{
    let ghost start = ids(out@);
    let ghost all = models(v@);
    let mut i: usize = 0;
    proof {
        assert(all.subrange(0, 0) =~= Seq::empty());
        assert(start =~= start + list_loops(all.subrange(0, 0)));
    }
    while i < v.len()
        invariant
            i <= v@.len(),
            all == models(v@),
            ids(out@) == start + list_loops(all.subrange(0, i as int)),
        decreases v@.len() - i,
    {
        assert(decreases_to!(v => v@));
        assert(decreases_to!(v@ => v@[i as int]));
        proof {
            lemma_take_next(all, i as int);
            assert(all[i as int] == v@[i as int]@);
        }
        collect_loop_sids(&v[i], out);
        assert(ids(out@) =~= start + list_loops(all.subrange(0, i as int + 1)));
        i = i + 1;
    }
    assert(all.subrange(0, i as int) =~= all);
}

fn collect_loops_under(v: &Vec<(String, Json)>, key: &str, out: &mut Vec<i64>)
    ensures
        ids(final(out)@) == ids(old(out)@) + loops_under(entries(v@), key@),
    decreases v,
{
    let ghost start = ids(out@);
    let i: usize = entry_index(v, key);
    if i < v.len() {
        assert(decreases_to!(v => v@));
        assert(decreases_to!(v@ => v@[i as int]));
        assert(decreases_to!(v@[i as int] => v@[i as int].1));
        assert(entries(v@)[i as int].1 == v@[i as int].1@);
        collect_loop_sids(&v[i].1, out);
    } else {
        assert(start =~= start + loops_under(entries(v@), key@));
    }
}

fn collect_entry_loops(v: &Vec<(String, Json)>, branch: bool, out: &mut Vec<i64>)
    ensures
        ids(final(out)@) == ids(old(out)@) + entry_loops(entries(v@), branch),
    decreases v,
{
    let ghost start = ids(out@);
    let ghost all = entries(v@);
    let mut i: usize = 0;
    proof {
        assert(all.subrange(0, 0) =~= Seq::empty());
        assert(start =~= start + entry_loops(all.subrange(0, 0), branch));
    }
    while i < v.len()
        invariant
            i <= v@.len(),
            all == entries(v@),
            ids(out@) == start + entry_loops(all.subrange(0, i as int), branch),
        decreases v@.len() - i,
    {
        assert(decreases_to!(v => v@));
        assert(decreases_to!(v@ => v@[i as int]));
        assert(decreases_to!(v@[i as int] => v@[i as int].1));
        proof {
            lemma_take_next(all, i as int);
            assert(all[i as int] == (v@[i as int].0@, v@[i as int].1@));
        }
        let key = v[i].0.as_str();
        let skipped = branch && (same(key, "cond") || same(key, "then_body") || same(
            key,
            "else_body",
        ));
        if !skipped {
            collect_loop_sids(&v[i].1, out);
            assert(ids(out@) =~= start + entry_loops(all.subrange(0, i as int + 1), branch));
        }
        i = i + 1;
    }
    assert(all.subrange(0, i as int) =~= all);
}

/// Collects the loops of a program tree, in the order of the source.
pub fn collect_loop_sids(node: &Json, out: &mut Vec<i64>)
    ensures
        ids(final(out)@) == ids(old(out)@) + loops(node@),
    decreases node,
{
    let ghost start = ids(out@);
    match node {
        Json::Array(v) => {
            proof {
                lemma_array_view(*v);
            }
            assert(decreases_to!(*node => node->Array_0));
            collect_list_loops(v, out);
        },
        Json::Object(v) => {
            let ghost all = entries(v@);
            proof {
                lemma_object_view(*v);
            }
            assert(decreases_to!(*node => node->Object_0));
            let is_loop = match node.text("kind") {
                Some(k) => same(k, "loop"),
                None => false,
            };
            if is_loop {
                match node.int_at("sid") {
                    Some(sid) => {
                        out.push(sid);
                    },
                    None => {},
                }
            }
            assert(ids(out@) =~= start + own_loop(node@));
            let branch = entry_index(v, "then_body") < v.len() && entry_index(v, "else_body")
                < v.len();
            if branch {
                collect_loops_under(v, "cond", out);
                collect_loops_under(v, "then_body", out);
                collect_loops_under(v, "else_body", out);
            }
            collect_entry_loops(v, branch, out);
            assert(ids(out@) =~= start + loops(node@));
        },
        _ => {
            reveal_with_fuel(loops, 2);
            assert(start =~= start + loops(node@));
        },
    }
}

// ---------------------------------------------------------------------------
// How answers are given
// ---------------------------------------------------------------------------

/// What a tool answers: a text, and the value itself where it is an object.
pub struct ToolAnswer {
    pub text: String,
    pub structured: Option<Json>,
}

/// What a tool answers with a value. Only an object is given as a value too: a client that knows
/// the field takes nothing else for it.
pub fn json_result(value: Json) -> (r: ToolAnswer)
    ensures
        r.text@ == json_pretty(collected(value@)),
        opt_value(r.structured) == (if value@ is Object {
            Some(value@)
        } else {
            None
        }),
{
    let text = value.to_pretty();
    if value.is_object() {
        ToolAnswer { text, structured: Some(value) }
    } else {
        ToolAnswer { text, structured: None }
    }
}

/// The first revision of the protocol that knows values beside texts.
pub const STRUCTURED_SINCE: &'static str = "2025-06-18";

/// Whether a peer knows values beside texts. One whose revision is not known is taken for the
/// oldest.
pub open spec fn knows_structured(version: Option<Seq<char>>) -> bool {
    match version {
        Some(v) => !text_lt(v, STRUCTURED_SINCE@),
        None => false,
    }
}

/// An answer as a peer knows it. The text carries the same, so nothing is lost.
pub fn answer_for(version: Option<&str>, answer: ToolAnswer) -> (r: ToolAnswer)
    ensures
        r.text@ == answer.text@,
        opt_value(r.structured) == (if knows_structured(opt_text(version)) {
            opt_value(answer.structured)
        } else {
            None
        }),
{
    let known = match version {
        Some(v) => !lt(v, STRUCTURED_SINCE),
        None => false,
    };
    if known {
        answer
    } else {
        ToolAnswer { text: answer.text, structured: None }
    }
}

/// Whether every failure is one of syntax.
pub open spec fn all_syntax(failures: Seq<InjectionFailure>) -> bool {
    forall|i: int|
        0 <= i < failures.len() ==> (#[trigger] failures[i]).failure_type
            == FailureType::SyntaxError
}

/// How an injection went.
pub open spec fn injection_status(failures: Seq<InjectionFailure>) -> Seq<char> {
    if failures.len() == 0 {
        "success"@
    } else if all_syntax(failures) {
        "partial"@
    } else {
        "proposed_error"@
    }
}

/// How an injection went, by what failed in it.
pub fn compute_status(failures: &Vec<InjectionFailure>) -> (r: String)
    ensures
        r@ == injection_status(failures@),
{
    if failures.len() == 0 {
        return owned("success");
    }
    let mut i: usize = 0;
    while i < failures.len()
        invariant
            i <= failures@.len(),
            failures@.len() > 0,
            forall|k: int|
                0 <= k < i ==> (#[trigger] failures@[k]).failure_type == FailureType::SyntaxError,
        decreases failures@.len() - i,
    {
        if failures[i].failure_type != FailureType::SyntaxError {
            assert(!all_syntax(failures@));
            return owned("proposed_error");
        }
        i = i + 1;
    }
    owned("partial")
}

/// What the plug-in says under a key of its result, in the text of an answer.
pub open spec fn plugin_field(text: Option<Seq<char>>, key: Seq<char>) -> Option<JsonView> {
    match text {
        Some(t) => match crate::outside::json_parse(t) {
            Some(v) => v.at("result"@, key),
            None => None,
        },
        None => None,
    }
}

/// Whether the plug-in says, in its answer, that it did what it was asked.
pub fn plugin_succeeded(answer: &Json) -> (r: bool)
    ensures
        r == (match answer@.at("result"@, "success"@) {
            Some(v) => v.as_flag() == Some(true),
            None => false,
        }),
{
    match answer.at("result", "success") {
        Some(v) => match v.as_flag() {
            Some(b) => b,
            None => false,
        },
        None => false,
    }
}

/// Whether the plug-in says that it did what it was asked, in the text of an answer.
pub fn parse_plugin_success(text: Option<&str>) -> (r: bool)
    ensures
        r == (match plugin_field(opt_text(text), "success"@) {
            Some(v) => v.as_flag() == Some(true),
            None => false,
        }),
{
    match text {
        Some(t) => match Json::parse(t) {
            Ok(v) => plugin_succeeded(&v),
            Err(_) => false,
        },
        None => false,
    }
}

/// What the plug-in says went wrong, in the text of an answer.
pub fn parse_plugin_error(text: Option<&str>) -> (r: Option<String>)
    ensures
        opt_string(r) == (match plugin_field(opt_text(text), "error"@) {
            Some(v) => v.as_text(),
            None => None,
        }),
{
    match text {
        Some(t) => match Json::parse(t) {
            Ok(v) => match v.at("result", "error") {
                Some(e) => match e.as_text() {
                    Some(s) => Some(owned(s)),
                    None => None,
                },
                None => None,
            },
            Err(_) => None,
        },
        None => None,
    }
}

/// The beginning of a source: as much of it as is shown.
pub fn source_excerpt(source: &str) -> (r: String)
    ensures
        r@ == prefix(source@, 4000),
{
    prefix_text(source, 4000)
}

/// How the verification of a function stands.
#[derive(Clone, Copy, PartialEq, Eq, Debug, Structural)]
pub enum VerificationStatus {
    Verified,
    Failed,
    Unsound,
    BlockedOnCallee,
    InProgress,
}

/// The word for how the verification of a function stands.
pub open spec fn status_word(status: VerificationStatus) -> Seq<char> {
    match status {
        VerificationStatus::Verified => "verified"@,
        VerificationStatus::Failed => "failed"@,
        VerificationStatus::Unsound => "unsound"@,
        VerificationStatus::BlockedOnCallee => "blocked_on_callee"@,
        VerificationStatus::InProgress => "in_progress"@,
    }
}

/// What is said of a word that is none of these.
pub open spec fn status_complaint(s: Seq<char>) -> Seq<char> {
    "invalid status '"@ + s
        + "', expected: verified|failed|unsound|blocked_on_callee|in_progress"@
}

/// The written name of a status.
pub fn conclusion_status_name(status: VerificationStatus) -> (r: &'static str)
    ensures
        r@ == status_word(status),
{
    match status {
        VerificationStatus::Verified => "verified",
        VerificationStatus::Failed => "failed",
        VerificationStatus::Unsound => "unsound",
        VerificationStatus::BlockedOnCallee => "blocked_on_callee",
        VerificationStatus::InProgress => "in_progress",
    }
}

/// How the verification of a function stands, by a word.
pub fn parse_conclusion_status(s: &str) -> (r: Result<VerificationStatus, String>)
    ensures
        match r {
            Ok(status) => s@ == status_word(status),
            Err(e) => {
                &&& e@ == status_complaint(s@)
                &&& forall|status: VerificationStatus| s@ != #[trigger] status_word(status)
            },
        },
{
    if same(s, "verified") {
        Ok(VerificationStatus::Verified)
    } else if same(s, "failed") {
        Ok(VerificationStatus::Failed)
    } else if same(s, "unsound") {
        Ok(VerificationStatus::Unsound)
    } else if same(s, "blocked_on_callee") {
        Ok(VerificationStatus::BlockedOnCallee)
    } else if same(s, "in_progress") {
        Ok(VerificationStatus::InProgress)
    } else {
        Err(
            cat3(
                "invalid status '",
                s,
                "', expected: verified|failed|unsound|blocked_on_callee|in_progress",
            ),
        )
    }
}

/// What a caller should know of the Frama-C that answers.
pub open spec fn version_limitations(frama_c: JsonView) -> Seq<Seq<char>> {
    let required = "Frama-C "@ + floor_text()
        + " or newer is required; run self_check after changing Frama-C versions."@;
    if frama_c.flag("supported"@) == Some(true) {
        seq![required]
    } else {
        seq![
            required,
            "The Frama-C in use is not supported: "@ + crate::json::text_or(
                frama_c.text("unsupported_reason"@),
                "self_check reported no Frama-C version verdict"@,
            ) + "."@,
        ]
    }
}

/// What a caller should know of the Frama-C that answers. Silence is only for one that is known to
/// be supported.
pub fn frama_c_version_limitations(frama_c: &Json) -> (r: Vec<String>)
    ensures
        texts(r@) == version_limitations(frama_c@),
{
    let mut out: Vec<String> = vec![
        cat3(
            "Frama-C ",
            min_frama_c_version().as_str(),
            " or newer is required; run self_check after changing Frama-C versions.",
        ),
    ];
    let supported = match frama_c.flag("supported") {
        Some(b) => b,
        None => false,
    };
    if !supported {
        let reason = crate::json::str_or(
            frama_c.text("unsupported_reason"),
            "self_check reported no Frama-C version verdict",
        );
        out.push(cat3("The Frama-C in use is not supported: ", reason, "."));
    }
    assert(texts(out@) =~= version_limitations(frama_c@));
    out
}

// ---------------------------------------------------------------------------
// What holds of requests and runs
// ---------------------------------------------------------------------------

/// A name means a function of the sandbox before its first colon, and one of the project where it
/// has none.
pub proof fn law_a_prefix_names_the_sandbox(experiment: Seq<char>, function: Seq<char>)
    requires
        !experiment.contains(':'),
    ensures
        scope_of(experiment + ":"@ + function) == (ScopeView::Sandbox {
            experiment_id: experiment,
            function,
        }),
        sandbox_of(experiment + ":"@ + function) == Some(experiment),
        target_of(experiment + ":"@ + function) == function,
        scope_of(experiment) == ScopeView::Main(experiment),
        sandbox_of(experiment) is None,
{
    reveal_strlit(":");
    assert(":"@[0] == ':');
    crate::text::law_split_at_the_mark(experiment, ":"@, function);
    if split_once_spec(experiment, ":"@) is Some {
        let i = choose|i: int| crate::text::first_at(experiment, ":"@, 0, i);
        assert(crate::text::stands_at(experiment, ":"@, i));
        assert(experiment.subrange(i, i + 1)[0] == experiment[i]);
        assert(experiment.contains(experiment[i]));
    }
}

proof fn lemma_no_target_complaint(names: Seq<Seq<char>>, experiment: Seq<char>, i: int)
    requires
        0 <= i,
        forall|k: int| 0 <= k < names.len() ==> sandbox_of(#[trigger] names[k]) == Some(experiment),
    ensures
        targets_complaint(names, experiment, i) is None,
    decreases names.len() - i,
{
    if i < names.len() {
        assert(sandbox_of(names[i]) == Some(experiment));
        lemma_no_target_complaint(names, experiment, i + 1);
    }
}

proof fn lemma_target_complaint(names: Seq<Seq<char>>, experiment: Seq<char>, i: int, k: int)
    requires
        0 <= i <= k < names.len(),
        sandbox_of(names[k]) != Some(experiment),
    ensures
        targets_complaint(names, experiment, i) is Some,
    decreases names.len() - i,
{
    if i < k && target_complaint(names[i], experiment) is None {
        lemma_target_complaint(names, experiment, i + 1, k);
    }
}

/// A run in a sandbox proves the functions that are named there; a name of another sandbox, or of
/// none, is refused.
pub proof fn law_a_run_stays_in_one_sandbox(
    names: Seq<Seq<char>>,
    experiment: Seq<char>,
    k: int,
)
    requires
        0 <= k < names.len(),
        sandbox_of(names[0]) == Some(experiment),
    ensures
        (forall|j: int| 0 <= j < names.len() ==> sandbox_of(#[trigger] names[j]) == Some(experiment))
            ==> sandbox_run(Some(names)) == Ok::<_, Seq<char>>(
            (experiment, names.map_values(|n: Seq<char>| target_of(n))),
        ),
        sandbox_of(names[k]) != Some(experiment) ==> sandbox_run(Some(names)) is Err,
        sandbox_run(None) is Err,
{
    if forall|j: int| 0 <= j < names.len() ==> sandbox_of(#[trigger] names[j]) == Some(experiment) {
        lemma_no_target_complaint(names, experiment, 0);
    }
    if sandbox_of(names[k]) != Some(experiment) {
        lemma_target_complaint(names, experiment, 0, k);
    }
}

proof fn lemma_decl_from(functions: Seq<JsonView>, name: Seq<char>, i: int, k: int)
    requires
        0 <= i <= k < functions.len(),
        functions[k].text("name"@) == Some(name),
        functions[k].text("decl"@) is Some,
        forall|j: int| i <= j < k ==> (#[trigger] functions[j]).text("name"@) != Some(name),
    ensures
        decl_from(functions, name, i) == functions[k].text("decl"@),
    decreases functions.len() - i,
{
    if i < k {
        lemma_decl_from(functions, name, i + 1, k);
    }
}

proof fn lemma_no_decl_from(functions: Seq<JsonView>, name: Seq<char>, i: int)
    requires
        0 <= i,
        forall|j: int|
            i <= j < functions.len() ==> (#[trigger] functions[j]).text("name"@) != Some(name),
    ensures
        decl_from(functions, name, i) is None,
    decreases functions.len() - i,
{
    if i < functions.len() {
        lemma_no_decl_from(functions, name, i + 1);
    }
}

/// A function is declared where the first row of its name says so; a name that no row has is told.
pub proof fn law_a_declaration_is_found_by_name(functions: Seq<JsonView>, name: Seq<char>, k: int)
    ensures
        0 <= k < functions.len() && functions[k].text("name"@) == Some(name) && functions[k].text(
            "decl"@,
        ) is Some && (forall|j: int|
            0 <= j < k ==> (#[trigger] functions[j]).text("name"@) != Some(name)) ==> decl_from(
            functions,
            name,
            0,
        ) == functions[k].text("decl"@),
        (forall|j: int|
            0 <= j < functions.len() ==> (#[trigger] functions[j]).text("name"@) != Some(name))
            ==> decl_from(functions, name, 0) is None && undeclared_from(functions, seq![name], 0)
            == Some(name),
{
    if 0 <= k < functions.len() && functions[k].text("name"@) == Some(name) && functions[k].text(
        "decl"@,
    ) is Some && (forall|j: int|
        0 <= j < k ==> (#[trigger] functions[j]).text("name"@) != Some(name)) {
        lemma_decl_from(functions, name, 0, k);
    }
    if forall|j: int|
        0 <= j < functions.len() ==> (#[trigger] functions[j]).text("name"@) != Some(name) {
        lemma_no_decl_from(functions, name, 0);
    }
}

/// The command line of the main process names the program, the options of the project, then every
/// file, then the socket, the provers and the memory model; runtime checks are asked for exactly
/// where they are wanted. Those of a sandbox and of a probe name their one file first; a sandbox
/// always asks for runtime checks.
pub proof fn law_the_command_lines(
    program: Seq<char>,
    file: Seq<char>,
    files: Seq<Seq<char>>,
    rte: bool,
    options: OptionsView,
    socket: Seq<char>,
    provers: Seq<char>,
    i: int,
)
    ensures
        ({
            let line = main_line(program, files, rte, options, socket, provers);
            let n = (1 + cli_args(options).len() + files.len()) as int;
            &&& line[0] == program
            &&& 0 <= i < cli_args(options).len() ==> line[1 + i] == cli_args(options)[i]
            &&& 0 <= i < files.len() ==> line[1 + cli_args(options).len() + i] == files[i]
            &&& line[n] == "-load-module"@ && line[n + 1] == "ast_utils_plugin"@
            &&& line[n + 2] == "-server-socket"@ && line[n + 3] == socket
            &&& line[n + 4] == "-wp-prover"@ && line[n + 5] == provers
            &&& line[n + 6] == "-wp-model"@ && line[n + 7] == "Typed+nocast"@
            &&& rte ==> line.len() == n + 9 && line[n + 8] == "-rte"@
            &&& !rte ==> line.len() == n + 8
        }),
        ({
            let line = sandbox_line(program, file, socket, provers);
            &&& line.len() == 14
            &&& line[0] == program && line[1] == file && line[2] == "-rte"@
            &&& line[3] == "-keep-unused-functions"@ && line[4] == "all"@
            &&& line[6] == "-server-socket"@ && line[7] == socket
            &&& line[8] == "-wp-prover"@ && line[9] == provers
        }),
        ({
            let line = probe_line(program, file, socket, provers);
            &&& line.len() == 10
            &&& line[0] == program && line[1] == file
            &&& line[4] == "-server-socket"@ && line[5] == socket
            &&& line[6] == "-wp-prover"@ && line[7] == provers
        }),
{
}

/// A run is set up by its provers, its timeout, the mode of its cache, its model and its
/// properties, in this order, each where it is asked for; a timeout that cannot be used ends it
/// before the rest.
pub proof fn law_a_run_is_set_up_in_order(
    p: RunWpParams,
    provers: Seq<Seq<char>>,
    env: WpEnvironment,
    support: ModelsView,
    t: int,
    mode: Seq<char>,
    e: Seq<char>,
)
    ensures
        config_steps(p, Some(provers), env, support)[0] == ConfigStepView::SelectProvers(provers),
        effective_timeout(p, opt_string(env.timeout)) == Ok::<Option<int>, Seq<char>>(Some(t))
            ==> config_steps(p, Some(provers), env, support)[1] == ConfigStepView::Put(
            "plugins.wp.setTimeout"@,
            JsonView::num(t),
        ),
        effective_timeout(p, opt_string(env.timeout)) == Err::<Option<int>, Seq<char>>(e)
            ==> config_steps(p, None, env, support) == seq![
            ConfigStepView::Fail(ToolErrorView::invalid(e)),
        ],
        effective_timeout(p, opt_string(env.timeout)) == Ok::<Option<int>, Seq<char>>(None)
            && cache_mode(asked_cache(p)) == Some(mode) ==> config_steps(p, None, env, support)[0]
            == ConfigStepView::Put("plugins.wp.setCacheMode"@, JsonView::Str(mode)),
        cache_mode(asked_cache(p)) is None ==> cache_steps(p, env, support).len() == 1
            && cache_steps(p, env, support)[0] is Fail,
        models_complaint(support, pieces(used_model(p), ','), 0) == Some(e) ==> model_steps(
            p,
            env,
            support,
        ) == seq![ConfigStepView::Fail(ToolErrorView::invalid(e))],
{
}

/// A run under a profile is refused in a sandbox and beside settings of its own; a cancellation in
/// a sandbox and smoke tests without provers are refused; anything else is planned.
pub proof fn law_what_a_run_is_refused_for(p: RunWpParams)
    ensures
        p.verify_profile is Some && p.model is Some ==> run_complaint(p) is Some,
        p.verify_profile is Some && p.prover is Some ==> run_complaint(p) is Some,
        p.verify_profile is Some && p.provers is Some ==> run_complaint(p) is Some,
        p.verify_profile is Some && p.timeout is Some ==> run_complaint(p) is Some,
        p.verify_profile is Some ==> profile_complaint(p, true) == Some(
            "verify_profile cannot be used for a sandbox run; omit it to prove outside the profile"@,
        ),
        p.verify_profile is None && p.cancel is None && p.smoke == Some(true) && p.provers is None
            ==> run_complaint(p) == Some("smoke requires provers"@),
        p.verify_profile is None && p.cancel == Some(true) && starts_in_sandbox(
            crate::reload::opt_texts(p.functions),
        ) ==> run_complaint(p) == Some(
            "cancel empties the queue of the main instance; it cannot name a sandbox"@,
        ),
        p.smoke == Some(true) && p.provers is None ==> run_complaint(p) is Some,
        p.verify_profile is Some && p.model is None && p.prover is None && p.provers is None
            && p.timeout is None && p.functions is None && p.smoke is None ==> run_complaint(
            p,
        ) is None,
        p.cancel is None && p.functions is Some && p.functions->0@.len() > 0 && sandbox_of(
            p.functions->0@[0]@,
        ) is Some ==> planned(p) == RunPlan::Sandbox,
        p.cancel is None && p.functions is Some && p.functions->0@.len() > 0 && sandbox_of(
            p.functions->0@[0]@,
        ) is None ==> planned(p) == RunPlan::Main,
        p.verify_profile is None && p.smoke != Some(true) && p.cancel != Some(true)
            ==> run_complaint(p) is None,
        p.functions is None && p.cancel == Some(true) && p.verify_profile is None && p.smoke is None
            ==> run_complaint(p) is None && planned(p) == RunPlan::Cancel,
        p.functions is None && p.cancel is None ==> planned(p) == RunPlan::Main,
{
}

/// A message is kept where it is an error, a warning or a failure, and dropped otherwise; they are
/// read until fewer than a hundred come at once, at most twenty times.
pub proof fn law_diagnostics_are_drained(
    batch: Seq<JsonView>,
    message: JsonView,
    items: Seq<JsonView>,
    rounds: int,
)
    requires
        0 <= rounds < 20,
    ensures
        message.text("kind"@) == Some("ERROR"@) || message.text("kind"@) == Some("WARNING"@)
            || message.text("kind"@) == Some("FAILURE"@) ==> diagnostics_in(batch.push(message))
            == diagnostics_in(batch).push(message),
        message.text("kind"@) == Some("RESULT"@) || message.text("kind"@) == Some("FEEDBACK"@)
            || message.text("kind"@) is None ==> diagnostics_in(batch.push(message))
            == diagnostics_in(batch),
        items.len() < 100 ==> drain_state(Some(JsonView::Array(items)), rounds)
            == DrainState::Complete,
        items.len() >= 100 && rounds < 19 ==> drain_state(Some(JsonView::Array(items)), rounds)
            == DrainState::More,
        items.len() >= 100 && rounds == 19 ==> drain_state(Some(JsonView::Array(items)), rounds)
            == DrainState::Truncated,
        drain_state(None, rounds) == DrainState::Truncated,
        kept_of(Some(JsonView::Array(items))) == diagnostics_in(items),
        kept_of(None).len() == 0,
{
    reveal_strlit("ERROR");
    reveal_strlit("WARNING");
    reveal_strlit("FAILURE");
    reveal_strlit("RESULT");
    reveal_strlit("FEEDBACK");
    assert("ERROR"@.len() == 5 && "WARNING"@.len() == 7);
    assert("FAILURE"@.len() == 7 && "RESULT"@.len() == 6);
    assert("FEEDBACK"@.len() == 8);
    assert("WARNING"@[0] != "FAILURE"@[0]);
    assert(batch.push(message).drop_last() =~= batch);
}

/// What is pending is what is still to do and what runs; without either number nothing is known.
pub proof fn law_pending_tasks_are_counted(tasks: JsonView, todo: int, active: int)
    ensures
        tasks.nat_at("todo"@) == Some(todo) && tasks.nat_at("active"@) == Some(active) ==> pending(
            tasks,
        ) == Some(todo + active),
        tasks.get("todo"@) is None ==> pending(tasks) is None,
        tasks.get("active"@) is None ==> pending(tasks) is None,
        tasks is Object && todo > 0 ==> drained(tasks, todo, active).at(
            "left_running"@,
            "waited_seconds"@,
        ) == Some(JsonView::num(active)),
{
    broadcast use crate::json::group_object_reads;

    reveal_strlit("drained");
    reveal_strlit("left_running");
    assert("drained"@.len() == 7 && "left_running"@.len() == 12);
    reveal_strlit("pending");
    reveal_strlit("waited_seconds");
    reveal_strlit("note");
    assert("pending"@.len() == 7 && "waited_seconds"@.len() == 14);
    assert("note"@.len() == 4);
}

/// A loop is found under its statement; what stands in a list is walked in order, and of a branch
/// the condition, then what is done where it holds, then what is done otherwise; other nodes add
/// nothing of their own.
pub proof fn law_loops_are_collected_in_order(
    node: JsonView,
    other: JsonView,
    third: JsonView,
    sid: int,
)
    ensures
        node.text("kind"@) == Some("loop"@) && node.int_at("sid"@) == Some(sid) ==> own_loop(node)
            == seq![sid],
        node.text("kind"@) != Some("loop"@) ==> own_loop(node).len() == 0,
        loops(JsonView::Array(seq![node, other])) == loops(node) + loops(other),
        loops(JsonView::Null).len() == 0,
        loops(
            JsonView::Object(
                seq![("cond"@, node), ("else_body"@, other), ("then_body"@, third)],
            ),
        ) == loops(node) + loops(third) + loops(other),
        loops(JsonView::Object(seq![("body"@, node)])) == loops(node),
{
    let two = seq![node, other];
    let one = two.drop_last();
    assert(one =~= seq![node]);
    assert(one.drop_last() =~= Seq::empty());
    assert(list_loops(one.drop_last()) =~= Seq::empty());
    assert(list_loops(one) == list_loops(one.drop_last()) + loops(one.last()));
    assert(list_loops(one) =~= loops(node));
    assert(list_loops(two) == list_loops(one) + loops(two.last()));
    reveal_strlit("kind");
    reveal_strlit("cond");
    reveal_strlit("then_body");
    reveal_strlit("else_body");
    reveal_strlit("body");
    assert("cond"@[0] == 'c' && "kind"@[0] == 'k' && "then_body"@[0] == 't' && "else_body"@[0]
        == 'e' && "body"@[0] == 'b');
    let branch = seq![("cond"@, node), ("else_body"@, other), ("then_body"@, third)];
    reveal_with_fuel(entry_at, 4);
    reveal_with_fuel(entry_loops, 4);
    assert(branch.drop_last() =~= seq![("cond"@, node), ("else_body"@, other)]);
    assert(branch.drop_last().drop_last() =~= seq![("cond"@, node)]);
    assert(branch.drop_last().drop_last().drop_last() =~= Seq::empty());
    assert(entry_loops(branch, true) =~= Seq::empty());
    crate::json::lemma_entry_none(branch, "kind"@);
    crate::json::lemma_entry_first(branch, "cond"@, 0);
    crate::json::lemma_entry_first(branch, "else_body"@, 1);
    crate::json::lemma_entry_first(branch, "then_body"@, 2);
    assert(own_loop(JsonView::Object(branch)) =~= Seq::empty());
    assert(loops(JsonView::Object(branch)) =~= loops(node) + loops(third) + loops(other));
    let single = seq![("body"@, node)];
    assert(single.drop_last() =~= Seq::empty());
    assert(entry_loops(single, false) =~= loops(node));
    crate::json::lemma_entry_none(single, "kind"@);
    crate::json::lemma_entry_none(single, "then_body"@);
    assert(own_loop(JsonView::Object(single)) =~= Seq::empty());
    assert(loops(JsonView::Object(single)) =~= loops(node));
}

/// Annotations that all went in are a success; where all that failed is syntax the rest stands; any
/// other failure is told as an error.
pub proof fn law_what_injected_annotations_come_to(failures: Seq<InjectionFailure>, i: int)
    ensures
        injection_status(Seq::empty()) == "success"@,
        0 <= i < failures.len() && failures[i].failure_type != FailureType::SyntaxError
            ==> injection_status(failures) == "proposed_error"@,
        failures.len() > 0 && (forall|k: int|
            0 <= k < failures.len() ==> (#[trigger] failures[k]).failure_type
                == FailureType::SyntaxError) ==> injection_status(failures) == "partial"@,
{
}

/// An answer is given in structure from the version of the protocol on that knows it, and in text
/// alone before.
pub proof fn law_structure_is_for_those_who_know_it(version: Seq<char>)
    ensures
        knows_structured(Some("2025-06-18"@)),
        text_lt(version, "2025-06-18"@) ==> !knows_structured(Some(version)),
        text_lt("2025-06-18"@, version) ==> knows_structured(Some(version)),
        !knows_structured(None),
{
    crate::order::law_text_lt_irreflexive("2025-06-18"@);
    if text_lt("2025-06-18"@, version) && text_lt(version, "2025-06-18"@) {
        crate::order::law_text_lt_transitive("2025-06-18"@, version, "2025-06-18"@);
    }
}

/// Each status has a word of its own.
pub proof fn law_each_status_has_its_word(a: VerificationStatus, b: VerificationStatus)
    ensures
        status_word(VerificationStatus::Verified) == "verified"@,
        status_word(VerificationStatus::Failed) == "failed"@,
        status_word(VerificationStatus::Unsound) == "unsound"@,
        status_word(VerificationStatus::BlockedOnCallee) == "blocked_on_callee"@,
        status_word(VerificationStatus::InProgress) == "in_progress"@,
        status_word(a) == status_word(b) ==> a == b,
{
    reveal_strlit("verified");
    reveal_strlit("failed");
    reveal_strlit("unsound");
    reveal_strlit("blocked_on_callee");
    reveal_strlit("in_progress");
    assert("verified"@.len() == 8 && "failed"@.len() == 6);
    assert("unsound"@.len() == 7 && "blocked_on_callee"@.len() == 17);
    assert("in_progress"@.len() == 11);
}

/// A Frama-C that is not known to be supported is named as a limitation, with the reason.
pub proof fn law_an_unsupported_frama_c_is_told(frama_c: JsonView, reason: Seq<char>)
    ensures
        frama_c.flag("supported"@) == Some(true) ==> version_limitations(frama_c).len() == 1,
        frama_c.flag("supported"@) != Some(true) && frama_c.text("unsupported_reason"@) == Some(reason)
            ==> version_limitations(frama_c).len() == 2 && version_limitations(frama_c)[1]
            == "The Frama-C in use is not supported: "@ + reason + "."@,
{
}

/// What the plugin answers is read out of its result.
pub proof fn law_the_answer_of_the_plugin_is_read(
    t: Seq<char>,
    v: JsonView,
    result: JsonView,
    key: Seq<char>,
)
    ensures
        crate::outside::json_parse(t) == Some(v) && v.get("result"@) == Some(result) ==> plugin_field(
            Some(t),
            key,
        ) == result.get(key),
        crate::outside::json_parse(t) is None ==> plugin_field(Some(t), key) is None,
        plugin_field(None, key) is None,
{
}

} // verus!
