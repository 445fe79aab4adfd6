//! Whether the installation works: the tools that are probed, the server that is started to be
//! asked, and two files of which one is known to be wrong.

use crate::json::{
    lemma_models_push, lemma_take_next, models, opt_value, str_or, text_or, Json, JsonView,
};
use crate::order::{is_order, lemma_place_is, sort_by};
use crate::outside::{decode_lossy, lowercase, unicode_lowercase, utf8_lossy};
use crate::requests::{
    ast_utils_registered_requests, not_probed_reports, parameters, registered, request_views,
    required, required_requests, unprobed_reports,
};
use crate::text::{
    cat2, cat3, cat4, contains, join, join_spec, lines, lines_spec, occurs, opt_string, owned, same,
    slices, texts, trim, trim_spec,
};
use crate::wpconfig::{debug_list, debug_texts};
use vstd::prelude::*;

verus! {

// ---------------------------------------------------------------------------
// Tools
// ---------------------------------------------------------------------------

/// The lines of one stream of a probe.
pub open spec fn stream_lines(probe: JsonView, stream: Seq<char>) -> Seq<Seq<char>> {
    match probe.text(stream) {
        Some(t) => lines_spec(t),
        None => Seq::empty(),
    }
}

/// The lines that a probed tool printed, on its output and then on its error stream.
pub open spec fn printed(probe: JsonView) -> Seq<Seq<char>> {
    stream_lines(probe, "stdout"@) + stream_lines(probe, "stderr"@)
}

/// Whether some line holds a text.
pub open spec fn some_line_holds(ls: Seq<Seq<char>>, text: Seq<char>) -> bool {
    exists|i: int| 0 <= i < ls.len() && occurs(#[trigger] ls[i], text)
}

/// The first line from `i` on of which the lower-case form holds a text.
pub open spec fn line_naming(
    ls: Seq<Seq<char>>,
    lowered: Seq<Seq<char>>,
    text: Seq<char>,
    i: int,
) -> Option<Seq<char>>
    decreases ls.len() - i,
{
    if i < 0 || i >= ls.len() {
        None
    } else if occurs(lowered[i], text) {
        Some(ls[i])
    } else {
        line_naming(ls, lowered, text, i + 1)
    }
}

/// Why a tool that printed some lines is unusable, given their lower-case forms.
pub open spec fn failure_among(
    probe: JsonView,
    expected: Seq<char>,
    ls: Seq<Seq<char>>,
    lowered: Seq<Seq<char>>,
) -> Option<Seq<char>> {
    if some_line_holds(ls, expected) {
        None
    } else {
        match line_naming(ls, lowered, "fatal error"@, 0) {
            Some(line) => Some(trim_spec(line)),
            None => match probe.text("error"@) {
                Some(error) => Some(trim_spec(error)),
                None => Some(
                    "probe "@ + text_or(probe.text("status"@), "unknown"@) + " without a "@ + (
                    expected + " line"@),
                ),
            },
        }
    }
}

/// The lower-case forms of some texts.
pub open spec fn lowered(ls: Seq<Seq<char>>) -> Seq<Seq<char>> {
    ls.map_values(|l: Seq<char>| unicode_lowercase(l))
}

fn push_stream(out: &mut Vec<String>, probe: &Json, stream: &str)
    ensures
        texts(final(out)@) == texts(old(out)@) + stream_lines(probe@, stream@),
{
    let ghost before = out@;
    match probe.text(stream) {
        Some(t) => {
            let mut more = lines(t);
            let ghost all = more@;
            out.append(&mut more);
            assert(texts(out@) =~= texts(before) + texts(all));
        },
        None => {
            assert(texts(out@) =~= texts(before) + Seq::empty());
        },
    }
}

/// The lines that a probed tool printed.
pub fn probe_lines(probe: &Json) -> (r: Vec<String>)
    ensures
        texts(r@) == printed(probe@),
{
    let mut out: Vec<String> = Vec::new();
    assert(texts(out@) =~= Seq::empty());
    push_stream(&mut out, probe, "stdout");
    push_stream(&mut out, probe, "stderr");
    assert(texts(out@) =~= printed(probe@));
    out
}

/// Why a tool that printed some lines is unusable, given their lower-case forms.
pub fn probe_failure_among(
    probe: &Json,
    expected_output: &str,
    printed_lines: &Vec<String>,
    lower_lines: &Vec<String>,
) -> (r: Option<String>)
    requires
        printed_lines@.len() == lower_lines@.len(),
    ensures
        opt_string(r) == failure_among(
            probe@,
            expected_output@,
            texts(printed_lines@),
            texts(lower_lines@),
        ),
{
    let ghost ls = texts(printed_lines@);
    let ghost low = texts(lower_lines@);
    let mut i: usize = 0;
    while i < printed_lines.len()
        invariant
            i <= printed_lines@.len(),
            printed_lines@.len() == lower_lines@.len(),
            ls == texts(printed_lines@),
            low == texts(lower_lines@),
            forall|k: int| 0 <= k < i ==> !occurs(#[trigger] ls[k], expected_output@),
        decreases printed_lines@.len() - i,
    {
        assert(ls[i as int] == printed_lines@[i as int]@);
        if contains(printed_lines[i].as_str(), expected_output) {
            assert(some_line_holds(ls, expected_output@));
            return None;
        }
        i = i + 1;
    }
    assert(!some_line_holds(ls, expected_output@));
    let mut j: usize = 0;
    while j < printed_lines.len()
        invariant
            j <= printed_lines@.len(),
            printed_lines@.len() == lower_lines@.len(),
            ls == texts(printed_lines@),
            low == texts(lower_lines@),
            !some_line_holds(ls, expected_output@),
            line_naming(ls, low, "fatal error"@, 0) == line_naming(
                ls,
                low,
                "fatal error"@,
                j as int,
            ),
        decreases printed_lines@.len() - j,
    {
        assert(ls[j as int] == printed_lines@[j as int]@);
        assert(low[j as int] == lower_lines@[j as int]@);
        if contains(lower_lines[j].as_str(), "fatal error") {
            return Some(trim(printed_lines[j].as_str()));
        }
        j = j + 1;
    }
    match probe.text("error") {
        Some(error) => Some(trim(error)),
        None => {
            let tail = cat2(expected_output, " line");
            Some(
                cat4(
                    "probe ",
                    str_or(probe.text("status"), "unknown"),
                    " without a ",
                    tail.as_str(),
                ),
            )
        },
    }
}

/// Why a probed tool is unusable, or nothing where it printed what a working one prints. The
/// absence of known errors would let any tool pass that breaks in another way.
pub fn probe_failure(probe: &Json, expected_output: &str) -> (r: Option<String>)
    ensures
        opt_string(r) == failure_among(
            probe@,
            expected_output@,
            printed(probe@),
            lowered(printed(probe@)),
        ),
{
    let printed_lines = probe_lines(probe);
    let ghost ls = texts(printed_lines@);
    let mut lower_lines: Vec<String> = Vec::new();
    let mut i: usize = 0;
    while i < printed_lines.len()
        invariant
            i <= printed_lines@.len(),
            ls == texts(printed_lines@),
            lower_lines@.len() == i,
            forall|k: int|
                0 <= k < i ==> (#[trigger] lower_lines@[k])@ == unicode_lowercase(ls[k]),
        decreases printed_lines@.len() - i,
    {
        assert(ls[i as int] == printed_lines@[i as int]@);
        lower_lines.push(lowercase(printed_lines[i].as_str()));
        i = i + 1;
    }
    assert(texts(lower_lines@) =~= lowered(ls));
    probe_failure_among(probe, expected_output, &printed_lines, &lower_lines)
}

/// How a wrapper that is installed is reported.
pub open spec fn found_entry(tool: Seq<char>, probe: JsonView, failure: Option<Seq<char>>) -> JsonView {
    JsonView::object().with("tool"@, JsonView::Str(tool)).with(
        "status"@,
        JsonView::Str("found"@),
    ).with("usable"@, JsonView::Bool(failure is None)).with(
        "probe_error"@,
        JsonView::opt_text(failure),
    ).with("probe"@, probe)
}

/// How a wrapper that is not installed is reported.
pub open spec fn missing_entry(tool: Seq<char>) -> JsonView {
    JsonView::object().with("tool"@, JsonView::Str(tool)).with(
        "status"@,
        JsonView::Str("missing"@),
    ).with("usable"@, JsonView::Bool(false))
}

/// How a wrapper is reported, given why it is unusable.
pub fn wrapper_entry(tool: &str, probe: Json, failure: &Option<String>) -> (r: Json)
    ensures
        r@ == found_entry(tool@, probe@, opt_string(*failure)),
{
    Json::object().with("tool", Json::str(tool)).with("status", Json::str("found")).with(
        "usable",
        Json::Bool(failure.is_none()),
    ).with(
        "probe_error",
        match failure {
            Some(f) => Json::str(f.as_str()),
            None => Json::Null,
        },
    ).with("probe", probe)
}

/// How a wrapper is reported, by what its help came to where it is installed. One that works
/// prints how it is used.
pub fn e_acsl_tool_entry(tool: &str, probe: Option<Json>) -> (r: Json)
    ensures
        r@ == (match opt_value(probe) {
            Some(p) => found_entry(
                tool@,
                p,
                failure_among(p, "Usage:"@, printed(p), lowered(printed(p))),
            ),
            None => missing_entry(tool@),
        }),
{
    match probe {
        Some(p) => {
            let failure = probe_failure(&p, "Usage:");
            wrapper_entry(tool, p, &failure)
        },
        None => Json::object().with("tool", Json::str(tool)).with(
            "status",
            Json::str("missing"),
        ).with("usable", Json::Bool(false)),
    }
}

// ---------------------------------------------------------------------------
// The server that is started to be asked
// ---------------------------------------------------------------------------

/// What is answered where there is no place to write.
pub fn scratch_root_error(error: &str) -> (r: Json)
    ensures
        r@ == JsonView::object().with("status"@, JsonView::Str("error"@)).with(
            "reason"@,
            JsonView::Str("scratch root unusable: "@ + error@),
        ),
{
    Json::object().with("status", Json::str("error")).with(
        "reason",
        Json::Str(cat2("scratch root unusable: ", error)),
    )
}

/// How a trial write went.
pub open spec fn writeability(path: Seq<char>, error: Option<Seq<char>>) -> JsonView {
    match error {
        None => JsonView::object().with("status"@, JsonView::Str("ok"@)).with(
            "path"@,
            JsonView::Str(path),
        ),
        Some(e) => JsonView::object().with("status"@, JsonView::Str("error"@)).with(
            "path"@,
            JsonView::Str(path),
        ).with("error"@, JsonView::Str(e)),
    }
}

/// How a trial write went.
pub fn temp_dir_writeability(path: &str, error: &Option<String>) -> (r: Json)
    ensures
        r@ == writeability(path@, opt_string(*error)),
{
    match error {
        None => Json::object().with("status", Json::str("ok")).with("path", Json::str(path)),
        Some(e) => Json::object().with("status", Json::str("error")).with(
            "path",
            Json::str(path),
        ).with("error", Json::str(e.as_str())),
    }
}

/// Whether a report says that all is well.
pub open spec fn is_ok(report: JsonView) -> bool {
    report.text("status"@) == Some("ok"@)
}

fn report_ok(report: &Json) -> (r: bool)
    ensures
        r == is_ok(report@),
{
    match report.text("status") {
        Some(s) => same(s, "ok"),
        None => false,
    }
}

/// What is done about a server to be asked.
#[derive(Clone, Copy, PartialEq, Eq, Debug, Structural)]
pub enum SpawnPlan {
    Spawn,
    NotWritable,
    NoFramaC,
}

/// What is done about a server to be asked: it takes a place to write and a Frama-C.
pub fn spawn_plan(temp_writeability: &Json, frama_c_version: &Json) -> (r: SpawnPlan)
    ensures
        r == (if !is_ok(frama_c_version@) {
            SpawnPlan::NoFramaC
        } else if !is_ok(temp_writeability@) {
            SpawnPlan::NotWritable
        } else {
            SpawnPlan::Spawn
        }),
{
    if !report_ok(frama_c_version) {
        SpawnPlan::NoFramaC
    } else if !report_ok(temp_writeability) {
        SpawnPlan::NotWritable
    } else {
        SpawnPlan::Spawn
    }
}

/// What became of a server to be asked.
pub enum SpawnOutcome {
    /// There is no place to write.
    NotWritable,
    /// There is no Frama-C.
    NoFramaC,
    /// The source that it was to load could not be written.
    SourceNotWritten(String),
    /// It could not be started.
    NotSpawned(String),
    /// It answered: the reports on every request that was made of it.
    Started { socket: String, probed: Vec<Json> },
    /// It did not open its socket. What it printed, or why that could not be read.
    NoSocket { socket: String, output: Result<(Vec<u8>, Vec<u8>), String> },
}

/// What a process printed on its two streams.
pub open spec fn streams(output: Result<(Vec<u8>, Vec<u8>), String>) -> (Seq<char>, Seq<char>) {
    match output {
        Ok((stdout, stderr)) => (
            trim_spec(utf8_lossy(stdout@)),
            trim_spec(utf8_lossy(stderr@)),
        ),
        Err(e) => (Seq::empty(), e@),
    }
}

/// Whether a process that died was missing the plug-in, by what it printed.
pub open spec fn plugin_is_missing(stdout: Seq<char>, stderr: Seq<char>) -> bool {
    let combined = stdout + "\n"@ + stderr;
    occurs(combined, "ast_utils_plugin"@) && (occurs(combined, "can't be found"@) || occurs(
        combined,
        "Failed to load plug-in"@,
    ))
}

/// What is said of a server that opened no socket.
pub const NO_SOCKET: &'static str = "no socket: the probe process exited or never created one";

/// The status of a server that opened no socket.
pub open spec fn no_socket(socket: Seq<char>, stdout: Seq<char>, stderr: Seq<char>) -> JsonView {
    JsonView::object().with("status"@, JsonView::Str("error"@)).with(
        "socket"@,
        JsonView::Str(socket),
    ).with(
        "ast_utils_plugin"@,
        JsonView::Str(
            if plugin_is_missing(stdout, stderr) {
                "missing"@
            } else {
                "unknown"@
            },
        ),
    ).with("error"@, JsonView::Str(NO_SOCKET@)).with("stdout"@, JsonView::Str(stdout)).with(
        "stderr"@,
        JsonView::Str(stderr),
    )
}

/// The status of a server that opened no socket, by what it printed.
pub fn no_socket_status(socket: &str, stdout: &str, stderr: &str) -> (r: Json)
    ensures
        r@ == no_socket(socket@, stdout@, stderr@),
{
    let combined = cat3(stdout, "\n", stderr);
    let text = combined.as_str();
    let missing = contains(text, "ast_utils_plugin") && (contains(text, "can't be found")
        || contains(text, "Failed to load plug-in"));
    Json::object().with("status", Json::str("error")).with("socket", Json::str(socket)).with(
        "ast_utils_plugin",
        Json::str(
            if missing {
                "missing"
            } else {
                "unknown"
            },
        ),
    ).with("error", Json::str(NO_SOCKET)).with("stdout", Json::str(stdout)).with(
        "stderr",
        Json::str(stderr),
    )
}

/// The status of a server to be asked.
pub open spec fn spawn_status(outcome: SpawnOutcome) -> JsonView {
    match outcome {
        SpawnOutcome::NotWritable => JsonView::object().with(
            "status"@,
            JsonView::Str("not_run"@),
        ).with("reason"@, JsonView::Str("temp-dir write check failed"@)),
        SpawnOutcome::NoFramaC => JsonView::object().with(
            "status"@,
            JsonView::Str("missing"@),
        ).with("reason"@, JsonView::Str("Frama-C version check failed"@)),
        SpawnOutcome::SourceNotWritten(e) => JsonView::object().with(
            "status"@,
            JsonView::Str("error"@),
        ).with("error"@, JsonView::Str("write probe source: "@ + e@)),
        SpawnOutcome::NotSpawned(e) => JsonView::object().with(
            "status"@,
            JsonView::Str("missing"@),
        ).with("error"@, JsonView::Str(e@)),
        SpawnOutcome::Started { socket, probed } => JsonView::object().with(
            "status"@,
            JsonView::Str("ok"@),
        ).with("socket"@, JsonView::Str(socket@)).with(
            "ast_utils_plugin"@,
            JsonView::Str("loaded"@),
        ),
        SpawnOutcome::NoSocket { socket, output } => no_socket(
            socket@,
            streams(output).0,
            streams(output).1,
        ),
    }
}

/// Why nothing was asked, if nothing was.
pub open spec fn unasked_reason(outcome: SpawnOutcome) -> Option<Seq<char>> {
    match outcome {
        SpawnOutcome::NotWritable => Some("temp-dir write check failed"@),
        SpawnOutcome::NoFramaC => Some("Frama-C binary is unavailable"@),
        SpawnOutcome::SourceNotWritten(_) => Some("probe source could not be written"@),
        SpawnOutcome::NotSpawned(_) => Some("Frama-C binary could not be spawned"@),
        SpawnOutcome::NoSocket { socket, output } => Some("Frama-C probe server did not start"@),
        SpawnOutcome::Started { socket, probed } => None,
    }
}

/// The reports on what is required, cut out of the reports on everything: the first, and those on
/// the parameters, which are asked for last because setting them empties what the others read.
pub open spec fn required_part(probed: Seq<JsonView>) -> Seq<JsonView> {
    probed.subrange(0, required().len() as int) + probed.subrange(
        (required().len() + registered().len()) as int,
        probed.len() as int,
    )
}

/// The reports on what the plug-in registers, cut out of the reports on everything.
pub open spec fn registered_part(probed: Seq<JsonView>) -> Seq<JsonView> {
    probed.subrange(required().len() as int, (required().len() + registered().len()) as int)
}

/// What is known of a server to be asked.
pub struct SpawnReport {
    pub status: Json,
    pub required: Vec<Json>,
    pub registered: Vec<Json>,
}

/// What is known of a server to be asked. Of one that was not asked, every request is reported as
/// not probed, and why.
pub fn spawn_report(outcome: SpawnOutcome, readback: &Vec<&'static str>) -> (r: SpawnReport)
    requires
        outcome matches SpawnOutcome::Started { socket, probed } ==> required().len()
            + registered().len() <= probed@.len(),
    ensures
        r.status@ == spawn_status(outcome),
        match (unasked_reason(outcome), outcome) {
            (Some(reason), _) => {
                &&& models(r.required@) == unprobed_reports(
                    required() + parameters(slices(readback@)),
                    reason,
                )
                &&& models(r.registered@) == unprobed_reports(registered(), reason)
            },
            (None, SpawnOutcome::Started { socket, probed }) => {
                &&& models(r.required@) == required_part(models(probed@))
                &&& models(r.registered@) == registered_part(models(probed@))
            },
            _ => true,
        },
{
    match outcome {
        SpawnOutcome::NotWritable => {
            let (required, registered) = not_probed_reports(
                "temp-dir write check failed",
                readback,
            );
            let status = Json::object().with("status", Json::str("not_run")).with(
                "reason",
                Json::str("temp-dir write check failed"),
            );
            SpawnReport { status, required, registered }
        },
        SpawnOutcome::NoFramaC => {
            let (required, registered) = not_probed_reports(
                "Frama-C binary is unavailable",
                readback,
            );
            let status = Json::object().with("status", Json::str("missing")).with(
                "reason",
                Json::str("Frama-C version check failed"),
            );
            SpawnReport { status, required, registered }
        },
        SpawnOutcome::SourceNotWritten(e) => {
            let (required, registered) = not_probed_reports(
                "probe source could not be written",
                readback,
            );
            let status = Json::object().with("status", Json::str("error")).with(
                "error",
                Json::Str(cat2("write probe source: ", e.as_str())),
            );
            SpawnReport { status, required, registered }
        },
        SpawnOutcome::NotSpawned(e) => {
            let (required, registered) = not_probed_reports(
                "Frama-C binary could not be spawned",
                readback,
            );
            let status = Json::object().with("status", Json::str("missing")).with(
                "error",
                Json::str(e.as_str()),
            );
            SpawnReport { status, required, registered }
        },
        SpawnOutcome::NoSocket { socket, output } => {
            let (required, registered) = not_probed_reports(
                "Frama-C probe server did not start",
                readback,
            );
            let (stdout, stderr) = read_streams(&output);
            let status = no_socket_status(socket.as_str(), stdout.as_str(), stderr.as_str());
            SpawnReport { status, required, registered }
        },
        SpawnOutcome::Started { socket, probed } => {
            let always = required_requests();
            let plugin = ast_utils_registered_requests();
            let first: usize = always.len();
            let second: usize = plugin.len();
            assert(request_views(always@).len() == first && request_views(plugin@).len() == second);
            let ghost all = models(probed@);
            assert(all.len() == probed@.len());
            assert(first + second <= probed.len());
            let mut required = probed;
            let mut after = required.split_off(first + second);
            let registered = required.split_off(first);
            let ghost (a, b) = (required@, after@);
            required.append(&mut after);
            assert(models(required@) =~= required_part(all));
            assert(models(registered@) =~= registered_part(all));
            let status = Json::object().with("status", Json::str("ok")).with(
                "socket",
                Json::str(socket.as_str()),
            ).with("ast_utils_plugin", Json::str("loaded"));
            SpawnReport { status, required, registered }
        },
    }
}

fn read_streams(output: &Result<(Vec<u8>, Vec<u8>), String>) -> (r: (String, String))
    ensures
        (r.0@, r.1@) == streams(*output),
{
    match output {
        Ok((stdout, stderr)) => {
            let out = decode_lossy(stdout.as_slice());
            let err = decode_lossy(stderr.as_slice());
            (trim(out.as_str()), trim(err.as_str()))
        },
        Err(e) => {
            let nothing = String::new();
            assert(nothing@ =~= Seq::empty());
            (nothing, owned(e.as_str()))
        },
    }
}

/// Cutting the reports apart loses none, and puts none where it does not belong.
pub proof fn law_every_probe_is_reported(probed: Seq<JsonView>)
    requires
        required().len() + registered().len() <= probed.len(),
    ensures
        required_part(probed).len() + registered_part(probed).len() == probed.len(),
        (required_part(probed) + registered_part(probed)).to_multiset() == probed.to_multiset(),
{
    let n = required().len() as int;
    let m = n + registered().len() as int;
    let a = probed.subrange(0, n);
    let b = probed.subrange(n, m);
    let c = probed.subrange(m, probed.len() as int);
    assert(probed =~= (a + b) + c);
    vstd::seq_lib::lemma_multiset_commutative(a + b, c);
    vstd::seq_lib::lemma_multiset_commutative(a, b);
    vstd::seq_lib::lemma_multiset_commutative(a + c, b);
    vstd::seq_lib::lemma_multiset_commutative(a, c);
    assert(probed.to_multiset() =~= (required_part(probed) + registered_part(
        probed,
    )).to_multiset());
}

// ---------------------------------------------------------------------------
// The report
// ---------------------------------------------------------------------------

/// What a self check found.
pub struct SelfCheck {
    pub version: String,
    pub build_commit: String,
    pub frama_c_path: String,
    pub max_sandboxes: u64,
    pub frama_c: Json,
    pub opam_switch_hint: Json,
    pub why3_provers: Json,
    pub e_acsl_tools: Vec<Json>,
    pub temp_dir_writeability: Json,
    pub spawn: SpawnReport,
    pub processes: Json,
}

/// What a self check reports, before what the server can do is added.
pub open spec fn self_check_report(c: SelfCheck) -> JsonView {
    JsonView::object().with(
        "server"@,
        JsonView::object().with("version"@, JsonView::Str(c.version@)).with(
            "build_commit"@,
            JsonView::Str(c.build_commit@),
        ).with("frama_c_path"@, JsonView::Str(c.frama_c_path@)).with(
            "max_sandboxes"@,
            JsonView::num(c.max_sandboxes as int),
        ),
    ).with("frama_c"@, c.frama_c@).with("opam_switch_hint"@, c.opam_switch_hint@).with(
        "ast_utils"@,
        JsonView::object().with("plugin"@, JsonView::Str("ast_utils_plugin"@)).with(
            "status"@,
            JsonView::Str(text_or(c.spawn.status@.text("ast_utils_plugin"@), "not_loaded"@)),
        ).with("install_hint"@, JsonView::Str("cd ast-utils && dune install"@)),
    ).with("why3"@, JsonView::object().with("provers"@, c.why3_provers@)).with(
        "e_acsl"@,
        JsonView::object().with("execution"@, JsonView::Str("run_e_acsl"@)).with(
            "tools"@,
            JsonView::Array(models(c.e_acsl_tools@)),
        ),
    ).with("temp_dir_writeability"@, c.temp_dir_writeability@).with(
        "socket_spawn"@,
        c.spawn.status@,
    ).with("processes"@, c.processes@).with(
        "required_requests"@,
        JsonView::Array(models(c.spawn.required@)),
    ).with(
        "ast_utils_registered_requests"@,
        JsonView::Array(models(c.spawn.registered@)),
    )
}

/// What a self check reports, before what the server can do is added.
pub fn self_check_found(check: SelfCheck) -> (r: Json)
    ensures
        r@ == self_check_report(check),
{
    let server = Json::object().with("version", Json::str(check.version.as_str())).with(
        "build_commit",
        Json::str(check.build_commit.as_str()),
    ).with("frama_c_path", Json::str(check.frama_c_path.as_str())).with(
        "max_sandboxes",
        Json::num(check.max_sandboxes),
    );
    let ast_utils = Json::object().with("plugin", Json::str("ast_utils_plugin")).with(
        "status",
        Json::str(str_or(check.spawn.status.text("ast_utils_plugin"), "not_loaded")),
    ).with("install_hint", Json::str("cd ast-utils && dune install"));
    let why3 = Json::object().with("provers", check.why3_provers);
    let e_acsl = Json::object().with("execution", Json::str("run_e_acsl")).with(
        "tools",
        Json::array(check.e_acsl_tools),
    );
    Json::object().with("server", server).with("frama_c", check.frama_c).with(
        "opam_switch_hint",
        check.opam_switch_hint,
    ).with("ast_utils", ast_utils).with("why3", why3).with("e_acsl", e_acsl).with(
        "temp_dir_writeability",
        check.temp_dir_writeability,
    ).with("socket_spawn", check.spawn.status).with("processes", check.processes).with(
        "required_requests",
        Json::array(check.spawn.required),
    ).with("ast_utils_registered_requests", Json::array(check.spawn.registered))
}

/// What a self check reports: what was found, what the server can do, and what its tools cost.
pub fn self_check_payload(found: Json, capabilities: Json, tool_surface: Json) -> (r: Json)
    ensures
        r@ == found@.with("capabilities"@, capabilities@).with("tool_surface"@, tool_surface@),
{
    found.with("capabilities", capabilities).with("tool_surface", tool_surface)
}

/// A tool and how many bytes its description takes.
pub struct ToolSize {
    pub tool: String,
    pub bytes: u64,
}

/// Tools and how many bytes their descriptions take, as views.
pub open spec fn sizes(v: Seq<ToolSize>) -> Seq<(Seq<char>, int)> {
    v.map_values(|t: ToolSize| (t.tool@, t.bytes as int))
}

/// The larger comes first.
pub open spec fn larger_first() -> spec_fn((Seq<char>, int), (Seq<char>, int)) -> bool {
    |a: (Seq<char>, int), b: (Seq<char>, int)| a.1 > b.1
}

/// How one of the largest tools is shown.
pub open spec fn size_entry(t: (Seq<char>, int)) -> JsonView {
    JsonView::object().with("tool"@, JsonView::Str(t.0)).with("bytes"@, JsonView::num(t.1))
}

/// The first three of some tools, or all of them.
pub open spec fn first_three(s: Seq<(Seq<char>, int)>) -> Seq<(Seq<char>, int)> {
    if s.len() <= 3 {
        s
    } else {
        s.subrange(0, 3)
    }
}

/// What the tools cost a caller, per turn.
pub open spec fn tool_surface(tools: Seq<(Seq<char>, int)>, list_bytes: int) -> JsonView {
    JsonView::object().with("tool_count"@, JsonView::num(tools.len() as int)).with(
        "tools_list_bytes"@,
        JsonView::num(list_bytes),
    ).with(
        "largest"@,
        JsonView::Array(
            first_three(sort_by(tools, larger_first())).map_values(
                |t: (Seq<char>, int)| size_entry(t),
            ),
        ),
    )
}

fn by_size(tools: Vec<ToolSize>) -> (r: Vec<ToolSize>)
    ensures
        sizes(r@) == sort_by(sizes(tools@), larger_first()),
        r@.len() == tools@.len(),
{
    let ghost all = sizes(tools@);
    let ghost total = tools@.len();
    let mut rest = tools;
    let mut out: Vec<ToolSize> = Vec::new();
    let ghost mut n: int = 0;
    assert(all.subrange(0, 0) =~= Seq::empty());
    assert(sizes(out@) =~= Seq::empty());
    assert(sizes(rest@) =~= all.subrange(0, all.len() as int));
    while rest.len() > 0
        invariant
            0 <= n <= all.len(),
            all.len() == total,
            rest@.len() == all.len() - n,
            out@.len() == n,
            sizes(rest@) == all.subrange(n, all.len() as int),
            sizes(out@) == sort_by(all.subrange(0, n), larger_first()),
        decreases rest@.len(),
    {
        let ghost before = rest@;
        let t = rest.remove(0);
        let ghost x = (t.tool@, t.bytes as int);
        proof {
            assert(sizes(before)[0] == x);
            assert(all[n] == all.subrange(n, all.len() as int)[0]);
            lemma_take_next(all, n);
            assert forall|i: int| 0 <= i < rest@.len() implies #[trigger] sizes(rest@)[i]
                == all.subrange(n + 1, all.len() as int)[i] by {
                assert(sizes(before)[i + 1] == all.subrange(n, all.len() as int)[i + 1]);
            }
            assert(sizes(rest@) =~= all.subrange(n + 1, all.len() as int));
        }
        let ghost s = sizes(out@);
        let mut k: usize = 0;
        while k < out.len() && out[k].bytes >= t.bytes
            invariant
                k <= out@.len(),
                s == sizes(out@),
                x == (t.tool@, t.bytes as int),
                forall|i: int| 0 <= i < k ==> !larger_first()(x, #[trigger] s[i]),
            decreases out@.len() - k,
        {
            assert(s[k as int] == (out@[k as int].tool@, out@[k as int].bytes as int));
            k = k + 1;
        }
        proof {
            if k < s.len() {
                assert(s[k as int] == (out@[k as int].tool@, out@[k as int].bytes as int));
            }
            lemma_place_is(s, x, larger_first(), k as int);
        }
        let ghost old_out = out@;
        out.insert(k, t);
        assert(sizes(out@) =~= s.insert(k as int, x));
        proof {
            n = n + 1;
        }
    }
    assert(all.subrange(0, n) =~= all);
    out
}

/// What the tools cost a caller, per turn, and which of them the most.
pub fn tool_surface_payload(tools: Vec<ToolSize>, tools_list_bytes: u64) -> (r: Json)
    ensures
        r@ == tool_surface(sizes(tools@), tools_list_bytes as int),
{
    let ghost all = sizes(tools@);
    let total: usize = tools.len();
    let sorted = by_size(tools);
    let ghost s = sort_by(all, larger_first());
    let mut largest: Vec<Json> = Vec::new();
    let mut i: usize = 0;
    while i < sorted.len() && i < 3
        invariant
            i <= sorted@.len(),
            i <= 3,
            s == sizes(sorted@),
            largest@.len() == i,
            forall|k: int| 0 <= k < i ==> (#[trigger] largest@[k])@ == size_entry(s[k]),
        decreases sorted@.len() - i,
    {
        assert(s[i as int] == (sorted@[i as int].tool@, sorted@[i as int].bytes as int));
        largest.push(
            Json::object().with("tool", Json::str(sorted[i].tool.as_str())).with(
                "bytes",
                Json::num(sorted[i].bytes),
            ),
        );
        i = i + 1;
    }
    assert(models(largest@) =~= first_three(s).map_values(|t: (Seq<char>, int)| size_entry(t)));
    Json::object().with("tool_count", Json::num(total as u64)).with(
        "tools_list_bytes",
        Json::num(tools_list_bytes),
    ).with("largest", Json::array(largest))
}

/// No tool that is left out is larger than one that is shown.
pub proof fn law_the_largest_tools_are_shown(tools: Seq<(Seq<char>, int)>, i: int, j: int)
    requires
        0 <= i < first_three(sort_by(tools, larger_first())).len(),
        i < j < sort_by(tools, larger_first()).len(),
    ensures
        sort_by(tools, larger_first())[j].1 <= first_three(sort_by(tools, larger_first()))[i].1,
        sort_by(tools, larger_first()).to_multiset() == tools.to_multiset(),
{
    let o = larger_first();
    assert(is_order(o));
    crate::order::law_sort_by(tools, o);
    let s = sort_by(tools, o);
    assert(!o(s[j], s[i]));
}

// ---------------------------------------------------------------------------
// The canary
// ---------------------------------------------------------------------------

/// The code of a gap that is an alarm.
pub const ALARM_NOT_VALID: &'static str = "ALARM_NOT_VALID";

/// Whether a gap is the alarm that the wrong file is known to raise.
pub open spec fn is_the_alarm(item: JsonView) -> bool {
    item.text("code"@) == Some(ALARM_NOT_VALID@) && (match item.text("descr"@) {
        Some(d) => occurs(d, "signed_overflow"@),
        None => false,
    })
}

/// Whether some gap is the alarm that the wrong file is known to raise.
pub open spec fn names_the_alarm(incomplete: Seq<JsonView>) -> bool {
    exists|i: int| 0 <= i < incomplete.len() && is_the_alarm(#[trigger] incomplete[i])
}

/// What is wrong with what was said of the wrong file, if anything is.
pub open spec fn buggy_reason(
    verdict: Seq<char>,
    incomplete: Seq<JsonView>,
    codes: Seq<Seq<char>>,
) -> Option<Seq<char>> {
    if verdict != "incomplete"@ {
        Some("verdict "@ + verdict + ", expected incomplete"@)
    } else if !names_the_alarm(incomplete) {
        Some(
            "incomplete, but no ALARM_NOT_VALID naming signed_overflow; got "@ + debug_list(codes),
        )
    } else {
        None
    }
}

/// What is wrong with what was said of the wrong file, if anything is. It must be found wrong, and
/// for the reason that it is.
pub fn buggy_fixture_reason(verdict: &str, incomplete: &Vec<Json>, codes: &Vec<String>) -> (r: Option<
    String,
>)
    ensures
        opt_string(r) == buggy_reason(verdict@, models(incomplete@), texts(codes@)),
{
    if !same(verdict, "incomplete") {
        return Some(cat3("verdict ", verdict, ", expected incomplete"));
    }
    let ghost all = models(incomplete@);
    let mut i: usize = 0;
    while i < incomplete.len()
        invariant
            i <= incomplete@.len(),
            all == models(incomplete@),
            verdict@ == "incomplete"@,
            forall|k: int| 0 <= k < i ==> !is_the_alarm(#[trigger] all[k]),
        decreases incomplete@.len() - i,
    {
        assert(all[i as int] == incomplete@[i as int]@);
        let named = match incomplete[i].text("code") {
            Some(c) => same(c, ALARM_NOT_VALID),
            None => false,
        };
        let described = match incomplete[i].text("descr") {
            Some(d) => contains(d, "signed_overflow"),
            None => false,
        };
        if named && described {
            assert(names_the_alarm(all));
            return None;
        }
        i = i + 1;
    }
    assert(!names_the_alarm(all));
    let got = debug_texts(codes);
    Some(
        cat2("incomplete, but no ALARM_NOT_VALID naming signed_overflow; got ", got.as_str()),
    )
}

/// What is wrong with what was said of the right file, if anything is.
pub open spec fn fixed_reason(
    verdict: Seq<char>,
    incomplete: Seq<JsonView>,
    codes: Seq<Seq<char>>,
) -> Option<Seq<char>> {
    if verdict != "proved"@ {
        Some("verdict "@ + verdict + ", expected proved; incomplete "@ + debug_list(codes))
    } else if incomplete.len() > 0 {
        Some("proved but incomplete[] is not empty: "@ + debug_list(codes))
    } else {
        None
    }
}

/// What is wrong with what was said of the right file, if anything is. It must be proved, with
/// nothing left over.
pub fn fixed_fixture_reason(verdict: &str, incomplete: &Vec<Json>, codes: &Vec<String>) -> (r: Option<
    String,
>)
    ensures
        opt_string(r) == fixed_reason(verdict@, models(incomplete@), texts(codes@)),
{
    assert(models(incomplete@).len() == incomplete@.len());
    let got = debug_texts(codes);
    if !same(verdict, "proved") {
        Some(cat4("verdict ", verdict, ", expected proved; incomplete ", got.as_str()))
    } else if incomplete.len() > 0 {
        Some(cat2("proved but incomplete[] is not empty: ", got.as_str()))
    } else {
        None
    }
}

/// The codes of some gaps.
pub open spec fn codes_of(incomplete: Seq<JsonView>) -> Seq<Seq<char>>
    decreases incomplete.len(),
{
    if incomplete.len() == 0 {
        Seq::empty()
    } else {
        match incomplete.last().text("code"@) {
            Some(c) => codes_of(incomplete.drop_last()).push(c),
            None => codes_of(incomplete.drop_last()),
        }
    }
}

/// The gaps that a check left.
pub open spec fn gaps_in(payload: JsonView) -> Seq<JsonView> {
    match payload.list("incomplete"@) {
        Some(l) => l,
        None => Seq::empty(),
    }
}

/// What was wrong with a check of one of the two files.
pub open spec fn case_reason(check: Result<JsonView, Seq<char>>, expect_bug: bool) -> Option<Seq<char>> {
    match check {
        Err(e) => Some("check failed: "@ + e),
        Ok(payload) => {
            let verdict = text_or(payload.text("verdict"@), "missing"@);
            let gaps = gaps_in(payload);
            if expect_bug {
                buggy_reason(verdict, gaps, codes_of(gaps))
            } else {
                fixed_reason(verdict, gaps, codes_of(gaps))
            }
        },
    }
}

/// How a check of one of the two files is reported.
pub open spec fn case_of(
    file: Seq<char>,
    check: Result<JsonView, Seq<char>>,
    expect_bug: bool,
) -> JsonView {
    let reason = JsonView::opt_text(case_reason(check, expect_bug));
    match check {
        Err(e) => JsonView::object().with("file"@, JsonView::Str(file)).with("reason"@, reason),
        Ok(payload) => JsonView::object().with("file"@, JsonView::Str(file)).with(
            "verdict"@,
            JsonView::Str(text_or(payload.text("verdict"@), "missing"@)),
        ).with("incomplete"@, JsonView::strings(codes_of(gaps_in(payload)))).with(
            "reason"@,
            reason,
        ),
    }
}

/// The result of a check, as a view.
pub open spec fn check_view(check: Result<Json, String>) -> Result<JsonView, Seq<char>> {
    match check {
        Ok(v) => Ok(v@),
        Err(e) => Err(e@),
    }
}

fn gap_codes(gaps: &Vec<Json>) -> (r: Vec<String>)
    ensures
        texts(r@) == codes_of(models(gaps@)),
{
    let ghost all = models(gaps@);
    let mut out: Vec<String> = Vec::new();
    let mut i: usize = 0;
    assert(all.subrange(0, 0) =~= Seq::empty());
    assert(texts(out@) =~= Seq::empty());
    while i < gaps.len()
        invariant
            i <= gaps@.len(),
            all == models(gaps@),
            texts(out@) == codes_of(all.subrange(0, i as int)),
        decreases gaps@.len() - i,
    {
        proof {
            lemma_take_next(all, i as int);
            assert(all[i as int] == gaps@[i as int]@);
        }
        match gaps[i].text("code") {
            Some(c) => {
                let ghost before = out@;
                let o = owned(c);
                out.push(o);
                assert(texts(out@) =~= texts(before).push(o@));
            },
            None => {},
        }
        i = i + 1;
    }
    assert(all.subrange(0, i as int) =~= all);
    out
}

/// How a check of one of the two files is reported, and what was wrong with it. What counts is the
/// reason and not the verdict alone, which is the same where alarms are never raised.
pub fn canary_case(name: &str, check: &Result<Json, String>, expect_bug: bool) -> (r: (
    Json,
    Option<String>,
))
    ensures
        r.0@ == case_of(name@, check_view(*check), expect_bug),
        opt_string(r.1) == case_reason(check_view(*check), expect_bug),
{
    match check {
        Err(e) => {
            let reason = cat2("check failed: ", e.as_str());
            let case = Json::object().with("file", Json::str(name)).with(
                "reason",
                Json::str(reason.as_str()),
            );
            (case, Some(reason))
        },
        Ok(payload) => {
            let verdict = str_or(payload.text("verdict"), "missing");
            let none: Vec<Json> = Vec::new();
            assert(models(none@) =~= Seq::empty());
            let gaps = match payload.list("incomplete") {
                Some(l) => l,
                None => &none,
            };
            let codes = gap_codes(gaps);
            let reason = if expect_bug {
                buggy_fixture_reason(verdict, gaps, &codes)
            } else {
                fixed_fixture_reason(verdict, gaps, &codes)
            };
            let shown = match &reason {
                Some(s) => Json::str(s.as_str()),
                None => Json::Null,
            };
            let case = Json::object().with("file", Json::str(name)).with(
                "verdict",
                Json::str(verdict),
            ).with("incomplete", Json::strings(&codes)).with("reason", shown);
            (case, reason)
        },
    }
}

/// What became of one of the two files.
pub enum CanaryRun {
    /// It could not be written.
    NotWritten(String),
    /// It was checked.
    Checked(Result<Json, String>),
}

/// The name of the file that is known to be wrong.
pub const BUGGY_FILE: &'static str = "abs-int-buggy.c";

/// The name of the file that is known to be right.
pub const FIXED_FILE: &'static str = "abs-int-fixed.c";

/// What is said where the two files are told apart.
pub const CANARY_RELIABLE: &'static str =
    "EVA and WP separate the buggy fixture from the fixed one, and for the stated reason";

/// The report on one of the two files, where there is one.
pub open spec fn run_case(file: Seq<char>, run: CanaryRun, expect_bug: bool) -> Seq<JsonView> {
    match run {
        CanaryRun::NotWritten(_) => Seq::empty(),
        CanaryRun::Checked(check) => seq![case_of(file, check_view(check), expect_bug)],
    }
}

/// What went wrong with one of the two files.
pub open spec fn run_failure(file: Seq<char>, run: CanaryRun, expect_bug: bool) -> Seq<Seq<char>> {
    match run {
        CanaryRun::NotWritten(e) => seq![file + ": could not write fixture: "@ + e@],
        CanaryRun::Checked(check) => match case_reason(check_view(check), expect_bug) {
            Some(reason) => seq![file + ": "@ + reason],
            None => Seq::empty(),
        },
    }
}

/// Whether the two files are told apart.
pub open spec fn canary(buggy: CanaryRun, fixed: CanaryRun) -> JsonView {
    let failures = run_failure(BUGGY_FILE@, buggy, true) + run_failure(FIXED_FILE@, fixed, false);
    JsonView::object().with("reliable"@, JsonView::Bool(failures.len() == 0)).with(
        "reason"@,
        JsonView::Str(
            if failures.len() == 0 {
                CANARY_RELIABLE@
            } else {
                join_spec(failures, "; "@)
            },
        ),
    ).with(
        "cases"@,
        JsonView::Array(
            run_case(BUGGY_FILE@, buggy, true) + run_case(FIXED_FILE@, fixed, false),
        ),
    )
}

fn take_run(
    file: &str,
    run: &CanaryRun,
    expect_bug: bool,
    cases: &mut Vec<Json>,
    failures: &mut Vec<String>,
)
    ensures
        models(final(cases)@) == models(old(cases)@) + run_case(file@, *run, expect_bug),
        texts(final(failures)@) == texts(old(failures)@) + run_failure(file@, *run, expect_bug),
{
    let ghost (c0, f0) = (cases@, failures@);
    match run {
        CanaryRun::NotWritten(e) => {
            failures.push(cat3(file, ": could not write fixture: ", e.as_str()));
            assert(models(cases@) =~= models(c0) + Seq::empty());
        },
        CanaryRun::Checked(check) => {
            let (case, failure) = canary_case(file, check, expect_bug);
            match failure {
                Some(reason) => {
                    failures.push(cat3(file, ": ", reason.as_str()));
                },
                None => {},
            }
            proof {
                lemma_models_push(cases@, case);
            }
            cases.push(case);
        },
    }
    assert(models(cases@) =~= models(c0) + run_case(file@, *run, expect_bug));
    assert(texts(failures@) =~= texts(f0) + run_failure(file@, *run, expect_bug));
}

/// Whether the two files are told apart. An environment in which every request is answered and no
/// alarm is ever raised passes every other test.
pub fn canary_payload(buggy: &CanaryRun, fixed: &CanaryRun) -> (r: Json)
    ensures
        r@ == canary(*buggy, *fixed),
{
    let mut cases: Vec<Json> = Vec::new();
    let mut failures: Vec<String> = Vec::new();
    assert(models(cases@) =~= Seq::empty());
    assert(texts(failures@) =~= Seq::empty());
    take_run(BUGGY_FILE, buggy, true, &mut cases, &mut failures);
    take_run(FIXED_FILE, fixed, false, &mut cases, &mut failures);
    assert(models(cases@) =~= run_case(BUGGY_FILE@, *buggy, true) + run_case(
        FIXED_FILE@,
        *fixed,
        false,
    ));
    assert(texts(failures@) =~= run_failure(BUGGY_FILE@, *buggy, true) + run_failure(
        FIXED_FILE@,
        *fixed,
        false,
    ));
    assert(texts(failures@).len() == failures@.len());
    let reliable = failures.len() == 0;
    let reason = if reliable {
        owned(CANARY_RELIABLE)
    } else {
        join(&failures, "; ")
    };
    Json::object().with("reliable", Json::Bool(reliable)).with("reason", Json::Str(reason)).with(
        "cases",
        Json::array(cases),
    )
}

/// What is answered where the two files have no place to be.
pub fn canary_unwritable(error: &str) -> (r: Json)
    ensures
        r@ == JsonView::object().with("reliable"@, JsonView::Bool(false)).with(
            "reason"@,
            JsonView::Str("could not write the canary fixtures: "@ + error@),
        ).with("cases"@, JsonView::Array(Seq::empty())),
{
    Json::object().with("reliable", Json::Bool(false)).with(
        "reason",
        Json::Str(cat2("could not write the canary fixtures: ", error)),
    ).with("cases", Json::list0())
}

/// An installation is called reliable exactly where both files were checked, the wrong one was
/// found incomplete by the alarm that it is known to raise, and the right one was proved with
/// nothing left over.
pub proof fn law_reliable_means_both_files_were_told_apart(buggy: CanaryRun, fixed: CanaryRun)
    ensures
        canary(buggy, fixed).flag("reliable"@) == Some(
            match (buggy, fixed) {
                (CanaryRun::Checked(Ok(b)), CanaryRun::Checked(Ok(f))) => {
                    &&& text_or(b@.text("verdict"@), "missing"@) == "incomplete"@
                    &&& names_the_alarm(gaps_in(b@))
                    &&& text_or(f@.text("verdict"@), "missing"@) == "proved"@
                    &&& gaps_in(f@).len() == 0
                },
                _ => false,
            },
        ),
{
    let failures = run_failure(BUGGY_FILE@, buggy, true) + run_failure(FIXED_FILE@, fixed, false);
    let flag = JsonView::Bool(failures.len() == 0);
    let start = JsonView::object().with("reliable"@, flag);
    let reason = JsonView::Str(
        if failures.len() == 0 {
            CANARY_RELIABLE@
        } else {
            join_spec(failures, "; "@)
        },
    );
    let cases = JsonView::Array(
        run_case(BUGGY_FILE@, buggy, true) + run_case(FIXED_FILE@, fixed, false),
    );
    reveal_strlit("reliable");
    reveal_strlit("reason");
    reveal_strlit("cases");
    assert("reliable"@.len() != "reason"@.len());
    assert("reliable"@.len() != "cases"@.len());
    crate::json::law_with_get(JsonView::object(), "reliable"@, flag, "reliable"@);
    crate::json::law_with_get(start, "reason"@, reason, "reliable"@);
    crate::json::law_with_get(start.with("reason"@, reason), "cases"@, cases, "reliable"@);
}

// ---------------------------------------------------------------------------
// What holds of the checks
// ---------------------------------------------------------------------------

proof fn lemma_line_naming(
    ls: Seq<Seq<char>>,
    low: Seq<Seq<char>>,
    text: Seq<char>,
    i: int,
    k: int,
)
    requires
        0 <= i <= k < ls.len(),
        occurs(low[k], text),
        forall|j: int| i <= j < k ==> !occurs(#[trigger] low[j], text),
    ensures
        line_naming(ls, low, text, i) == Some(ls[k]),
    decreases k - i,
{
    if i < k {
        assert(!occurs(low[i], text));
        lemma_line_naming(ls, low, text, i + 1, k);
    }
}

proof fn lemma_no_line_naming(ls: Seq<Seq<char>>, low: Seq<Seq<char>>, text: Seq<char>, i: int)
    requires
        0 <= i,
        forall|j: int| i <= j < ls.len() ==> !occurs(#[trigger] low[j], text),
    ensures
        line_naming(ls, low, text, i) is None,
    decreases ls.len() - i,
{
    if i < ls.len() {
        assert(!occurs(low[i], text));
        lemma_no_line_naming(ls, low, text, i + 1);
    }
}

/// A tool that printed what it should is usable; else the first line with a fatal error tells why,
/// then what went wrong with the probe, then that the line did not come.
pub proof fn law_why_a_tool_is_not_usable(
    probe: JsonView,
    expected: Seq<char>,
    ls: Seq<Seq<char>>,
    low: Seq<Seq<char>>,
    k: int,
    error: Seq<char>,
    status: Seq<char>,
)
    requires
        ls.len() == low.len(),
    ensures
        0 <= k < ls.len() && occurs(ls[k], expected) ==> failure_among(probe, expected, ls, low) is
            None,
        0 <= k < ls.len() && occurs(low[k], "fatal error"@) && (forall|j: int|
            0 <= j < k ==> !occurs(#[trigger] low[j], "fatal error"@)) && (forall|j: int|
            0 <= j < ls.len() ==> !occurs(#[trigger] ls[j], expected)) ==> failure_among(
            probe,
            expected,
            ls,
            low,
        ) == Some(trim_spec(ls[k])),
        (forall|j: int| 0 <= j < ls.len() ==> !occurs(#[trigger] ls[j], expected)) && (forall|j: int|
            0 <= j < low.len() ==> !occurs(#[trigger] low[j], "fatal error"@)) && probe.text(
            "error"@,
        ) == Some(error) ==> failure_among(probe, expected, ls, low) == Some(trim_spec(error)),
        (forall|j: int| 0 <= j < ls.len() ==> !occurs(#[trigger] ls[j], expected)) && (forall|j: int|
            0 <= j < low.len() ==> !occurs(#[trigger] low[j], "fatal error"@)) && probe.text(
            "error"@,
        ) is None && probe.text("status"@) == Some(status) ==> failure_among(
            probe,
            expected,
            ls,
            low,
        ) == Some("probe "@ + status + " without a "@ + (expected + " line"@)),
{
    if 0 <= k < ls.len() && occurs(low[k], "fatal error"@) && (forall|j: int|
        0 <= j < k ==> !occurs(#[trigger] low[j], "fatal error"@)) {
        lemma_line_naming(ls, low, "fatal error"@, 0, k);
    }
    if forall|j: int| 0 <= j < low.len() ==> !occurs(#[trigger] low[j], "fatal error"@) {
        lemma_no_line_naming(ls, low, "fatal error"@, 0);
    }
}

/// A tool that is found is usable exactly where nothing failed; one that is missing is not.
pub proof fn law_a_tool_is_reported(tool: Seq<char>, probe: JsonView, failure: Option<Seq<char>>)
    ensures
        found_entry(tool, probe, failure).text("tool"@) == Some(tool),
        found_entry(tool, probe, failure).text("status"@) == Some("found"@),
        found_entry(tool, probe, failure).flag("usable"@) == Some(failure is None),
        found_entry(tool, probe, failure).get("probe_error"@) == Some(JsonView::opt_text(failure)),
        found_entry(tool, probe, failure).get("probe"@) == Some(probe),
        missing_entry(tool).text("tool"@) == Some(tool),
        missing_entry(tool).text("status"@) == Some("missing"@),
        missing_entry(tool).flag("usable"@) == Some(false),
{
    broadcast use crate::json::group_object_reads;

    reveal_strlit("tool");
    reveal_strlit("status");
    reveal_strlit("usable");
    reveal_strlit("probe_error");
    reveal_strlit("probe");
    assert("tool"@.len() == 4 && "status"@.len() == 6);
    assert("usable"@.len() == 6 && "probe_error"@.len() == 11);
    assert("probe"@.len() == 5);
    assert("status"@[0] != "usable"@[0]);
}

/// A place can be written to where nothing went wrong, and is told with what did.
pub proof fn law_a_place_is_reported(path: Seq<char>, error: Seq<char>)
    ensures
        is_ok(writeability(path, None)),
        writeability(path, None).text("path"@) == Some(path),
        !is_ok(writeability(path, Some(error))),
        writeability(path, Some(error)).text("path"@) == Some(path),
        writeability(path, Some(error)).text("error"@) == Some(error),
{
    broadcast use crate::json::group_object_reads;

    reveal_strlit("status");
    reveal_strlit("path");
    reveal_strlit("error");
    assert("status"@.len() == 6 && "path"@.len() == 4);
    assert("error"@.len() == 5);
    reveal_strlit("ok");
    reveal_strlit("error");
    assert("ok"@.len() == 2 && "error"@.len() == 5);
}

/// What came of starting a server is told, each way in its own words, and so is why the requests
/// were not probed.
pub proof fn law_what_came_of_starting_a_server(
    error: String,
    socket: String,
    probed: Vec<Json>,
    output: Result<(Vec<u8>, Vec<u8>), String>,
)
    ensures
        spawn_status(SpawnOutcome::NotWritable).text("status"@) == Some("not_run"@),
        spawn_status(SpawnOutcome::NotWritable).text("reason"@) == Some(
            "temp-dir write check failed"@,
        ),
        spawn_status(SpawnOutcome::NoFramaC).text("status"@) == Some("missing"@),
        spawn_status(SpawnOutcome::SourceNotWritten(error)).text("error"@) == Some(
            "write probe source: "@ + error@,
        ),
        spawn_status(SpawnOutcome::NotSpawned(error)).text("status"@) == Some("missing"@),
        spawn_status(SpawnOutcome::NotSpawned(error)).text("error"@) == Some(error@),
        spawn_status(SpawnOutcome::Started { socket, probed }).text("status"@) == Some("ok"@),
        spawn_status(SpawnOutcome::Started { socket, probed }).text("ast_utils_plugin"@) == Some(
            "loaded"@,
        ),
        spawn_status(SpawnOutcome::NoSocket { socket, output }).text("status"@) == Some("error"@),
        spawn_status(SpawnOutcome::NoSocket { socket, output }).text("socket"@) == Some(socket@),
        unasked_reason(SpawnOutcome::NotWritable) == Some("temp-dir write check failed"@),
        unasked_reason(SpawnOutcome::NoFramaC) == Some("Frama-C binary is unavailable"@),
        unasked_reason(SpawnOutcome::SourceNotWritten(error)) == Some(
            "probe source could not be written"@,
        ),
        unasked_reason(SpawnOutcome::NotSpawned(error)) == Some(
            "Frama-C binary could not be spawned"@,
        ),
        unasked_reason(SpawnOutcome::NoSocket { socket, output }) == Some(
            "Frama-C probe server did not start"@,
        ),
        unasked_reason(SpawnOutcome::Started { socket, probed }) is None,
{
    broadcast use crate::json::group_object_reads;

    reveal_strlit("status");
    reveal_strlit("reason");
    reveal_strlit("error");
    reveal_strlit("socket");
    reveal_strlit("ast_utils_plugin");
    reveal_strlit("stdout");
    reveal_strlit("stderr");
    assert("status"@.len() == 6 && "reason"@.len() == 6);
    assert("error"@.len() == 5 && "socket"@.len() == 6);
    assert("ast_utils_plugin"@.len() == 16 && "stdout"@.len() == 6);
    assert("stderr"@.len() == 6);
    assert("status"@[0] != "reason"@[0]);
    assert("status"@[1] != "socket"@[1]);
    assert("status"@[2] != "stdout"@[2]);
    assert("status"@[2] != "stderr"@[2]);
    assert("reason"@[0] != "socket"@[0]);
    assert("reason"@[0] != "stdout"@[0]);
    assert("reason"@[0] != "stderr"@[0]);
    assert("socket"@[1] != "stdout"@[1]);
    assert("socket"@[1] != "stderr"@[1]);
    assert("stdout"@[3] != "stderr"@[3]);
}

/// The plugin is missing where what was printed names it and says that it cannot be found or
/// loaded; else nothing is known of it.
pub proof fn law_a_missing_plugin_is_told(socket: Seq<char>, stdout: Seq<char>, stderr: Seq<char>)
    ensures
        ({
            let both = stdout + "\n"@ + stderr;
            let told = no_socket(socket, stdout, stderr).text("ast_utils_plugin"@);
            &&& occurs(both, "ast_utils_plugin"@) && occurs(both, "can't be found"@) ==> told
                == Some("missing"@)
            &&& occurs(both, "ast_utils_plugin"@) && occurs(both, "Failed to load plug-in"@)
                ==> told == Some("missing"@)
            &&& !occurs(both, "ast_utils_plugin"@) ==> told == Some("unknown"@)
            &&& !occurs(both, "can't be found"@) && !occurs(both, "Failed to load plug-in"@)
                ==> told == Some("unknown"@)
        }),
        no_socket(socket, stdout, stderr).text("stdout"@) == Some(stdout),
        no_socket(socket, stdout, stderr).text("stderr"@) == Some(stderr),
{
    broadcast use crate::json::group_object_reads;

    reveal_strlit("status");
    reveal_strlit("error");
    reveal_strlit("socket");
    reveal_strlit("ast_utils_plugin");
    reveal_strlit("stdout");
    reveal_strlit("stderr");
    assert("status"@.len() == 6 && "error"@.len() == 5);
    assert("socket"@.len() == 6 && "ast_utils_plugin"@.len() == 16);
    assert("stdout"@.len() == 6 && "stderr"@.len() == 6);
    assert("status"@[1] != "socket"@[1]);
    assert("status"@[2] != "stdout"@[2]);
    assert("status"@[2] != "stderr"@[2]);
    assert("socket"@[1] != "stdout"@[1]);
    assert("socket"@[1] != "stderr"@[1]);
    assert("stdout"@[3] != "stderr"@[3]);
}

/// What the check found stands under its own names.
pub proof fn law_the_check_reports_what_it_found(c: SelfCheck)
    ensures
        ({
            let r = self_check_report(c);
            &&& r.at("server"@, "version"@) == Some(JsonView::Str(c.version@))
            &&& r.at("server"@, "build_commit"@) == Some(JsonView::Str(c.build_commit@))
            &&& r.at("server"@, "frama_c_path"@) == Some(JsonView::Str(c.frama_c_path@))
            &&& r.at("server"@, "max_sandboxes"@) == Some(JsonView::num(c.max_sandboxes as int))
            &&& r.get("frama_c"@) == Some(c.frama_c@)
            &&& r.get("opam_switch_hint"@) == Some(c.opam_switch_hint@)
            &&& r.at("why3"@, "provers"@) == Some(c.why3_provers@)
            &&& r.at("e_acsl"@, "tools"@) == Some(JsonView::Array(models(c.e_acsl_tools@)))
            &&& r.get("temp_dir_writeability"@) == Some(c.temp_dir_writeability@)
            &&& r.get("socket_spawn"@) == Some(c.spawn.status@)
            &&& r.get("processes"@) == Some(c.processes@)
            &&& r.get("required_requests"@) == Some(JsonView::Array(models(c.spawn.required@)))
            &&& r.get("ast_utils_registered_requests"@) == Some(
                JsonView::Array(models(c.spawn.registered@)),
            )
            &&& c.spawn.status@.text("ast_utils_plugin"@) is None ==> r.at(
                "ast_utils"@,
                "status"@,
            ) == Some(JsonView::Str("not_loaded"@))
            &&& c.spawn.status@.text("ast_utils_plugin"@) is Some ==> r.at(
                "ast_utils"@,
                "status"@,
            ) == Some(JsonView::Str(c.spawn.status@.text("ast_utils_plugin"@)->0))
        }),
{
    broadcast use crate::json::group_object_reads;

    reveal_strlit("server");
    reveal_strlit("frama_c");
    reveal_strlit("opam_switch_hint");
    reveal_strlit("ast_utils");
    reveal_strlit("why3");
    reveal_strlit("e_acsl");
    reveal_strlit("temp_dir_writeability");
    reveal_strlit("socket_spawn");
    reveal_strlit("processes");
    reveal_strlit("required_requests");
    reveal_strlit("ast_utils_registered_requests");
    assert("server"@.len() == 6 && "frama_c"@.len() == 7);
    assert("opam_switch_hint"@.len() == 16 && "ast_utils"@.len() == 9);
    assert("why3"@.len() == 4 && "e_acsl"@.len() == 6);
    assert("temp_dir_writeability"@.len() == 21 && "socket_spawn"@.len() == 12);
    assert("processes"@.len() == 9 && "required_requests"@.len() == 17);
    assert("ast_utils_registered_requests"@.len() == 29);
    assert("server"@[0] != "e_acsl"@[0]);
    assert("ast_utils"@[0] != "processes"@[0]);
    reveal_strlit("version");
    reveal_strlit("build_commit");
    reveal_strlit("frama_c_path");
    reveal_strlit("max_sandboxes");
    assert("version"@.len() == 7 && "build_commit"@.len() == 12);
    assert("frama_c_path"@.len() == 12 && "max_sandboxes"@.len() == 13);
    assert("build_commit"@[0] != "frama_c_path"@[0]);
    reveal_strlit("plugin");
    reveal_strlit("status");
    reveal_strlit("install_hint");
    assert("plugin"@.len() == 6 && "status"@.len() == 6);
    assert("install_hint"@.len() == 12);
    assert("plugin"@[0] != "status"@[0]);
    reveal_strlit("execution");
    reveal_strlit("tools");
    assert("execution"@.len() == 9 && "tools"@.len() == 5);
}

/// The file with the bug must be left incomplete for the overflow that is in it; the file without
/// must be proved with nothing left; else it is told what came instead.
pub proof fn law_what_is_expected_of_the_fixtures(
    verdict: Seq<char>,
    gaps: Seq<JsonView>,
    codes: Seq<Seq<char>>,
    i: int,
    d: Seq<char>,
)
    ensures
        0 <= i < gaps.len() && gaps[i].text("code"@) == Some("ALARM_NOT_VALID"@) && gaps[i].text(
            "descr"@,
        ) == Some(d) && occurs(d, "signed_overflow"@) ==> buggy_reason("incomplete"@, gaps, codes) is
            None,
        (forall|j: int|
            0 <= j < gaps.len() ==> (#[trigger] gaps[j]).text("code"@) != Some("ALARM_NOT_VALID"@))
            ==> buggy_reason("incomplete"@, gaps, codes) is Some,
        (forall|j: int| 0 <= j < gaps.len() ==> (#[trigger] gaps[j]).text("descr"@) is None)
            ==> buggy_reason("incomplete"@, gaps, codes) is Some,
        verdict != "incomplete"@ ==> buggy_reason(verdict, gaps, codes) == Some(
            "verdict "@ + verdict + ", expected incomplete"@,
        ),
        gaps.len() == 0 ==> fixed_reason("proved"@, gaps, codes) is None,
        gaps.len() > 0 ==> fixed_reason("proved"@, gaps, codes) is Some,
        verdict != "proved"@ ==> fixed_reason(verdict, gaps, codes) is Some,
{
    if 0 <= i < gaps.len() && gaps[i].text("code"@) == Some("ALARM_NOT_VALID"@) && gaps[i].text(
        "descr"@,
    ) == Some(d) && occurs(d, "signed_overflow"@) {
        assert(is_the_alarm(gaps[i]));
    }
}

/// The tools are counted, and the three largest are shown with their sizes.
pub proof fn law_the_tools_are_counted(tools: Seq<(Seq<char>, int)>, bytes: int, i: int)
    ensures
        tool_surface(tools, bytes).get("tool_count"@) == Some(JsonView::num(tools.len() as int)),
        tool_surface(tools, bytes).get("tools_list_bytes"@) == Some(JsonView::num(bytes)),
        tool_surface(tools, bytes).list("largest"@) is Some,
        ({
            let shown = tool_surface(tools, bytes).list("largest"@)->0;
            let sorted = sort_by(tools, larger_first());
            &&& shown.len() <= 3
            &&& sorted.len() >= 3 ==> shown.len() == 3
            &&& 0 <= i < shown.len() ==> shown[i].text("tool"@) == Some(sorted[i].0)
                && shown[i].get("bytes"@) == Some(JsonView::num(sorted[i].1))
        }),
{
    broadcast use crate::json::group_object_reads;

    reveal_strlit("tool_count");
    reveal_strlit("tools_list_bytes");
    reveal_strlit("largest");
    assert("tool_count"@.len() == 10 && "tools_list_bytes"@.len() == 16);
    assert("largest"@.len() == 7);
    reveal_strlit("tool");
    reveal_strlit("bytes");
    assert("tool"@.len() == 4 && "bytes"@.len() == 5);
}

/// The codes of the gaps are read in order.
pub proof fn law_codes_are_read_in_order(gaps: Seq<JsonView>, gap: JsonView, code: Seq<char>)
    ensures
        gap.text("code"@) == Some(code) ==> codes_of(gaps.push(gap)) == codes_of(gaps).push(code),
        gap.text("code"@) is None ==> codes_of(gaps.push(gap)) == codes_of(gaps),
{
    assert(gaps.push(gap).drop_last() =~= gaps);
}

/// What came of a fixture is told with its file, its verdict, the codes of its gaps, and why it is
/// not as expected.
pub proof fn law_a_fixture_is_reported(
    file: Seq<char>,
    payload: JsonView,
    verdict: Seq<char>,
    gaps: Seq<JsonView>,
    error: Seq<char>,
    expect_bug: bool,
)
    ensures
        payload.text("verdict"@) == Some(verdict) && payload.list("incomplete"@) == Some(gaps) ==> {
            let c = case_of(file, Ok(payload), expect_bug);
            &&& c.text("file"@) == Some(file)
            &&& c.text("verdict"@) == Some(verdict)
            &&& c.get("incomplete"@) == Some(JsonView::strings(codes_of(gaps)))
            &&& expect_bug ==> c.get("reason"@) == Some(
                JsonView::opt_text(buggy_reason(verdict, gaps, codes_of(gaps))),
            )
            &&& !expect_bug ==> c.get("reason"@) == Some(
                JsonView::opt_text(fixed_reason(verdict, gaps, codes_of(gaps))),
            )
        },
        case_of(file, Err(error), expect_bug).text("reason"@) == Some("check failed: "@ + error),
        case_of(file, Err(error), expect_bug).text("file"@) == Some(file),
{
    broadcast use crate::json::group_object_reads;

    reveal_strlit("file");
    reveal_strlit("verdict");
    reveal_strlit("incomplete");
    reveal_strlit("reason");
    assert("file"@.len() == 4 && "verdict"@.len() == 7);
    assert("incomplete"@.len() == 10 && "reason"@.len() == 6);
}

/// A fixture that could not be written, or was not as expected, is named with the reason.
pub proof fn law_failing_fixtures_are_named(error: String, fixed: Result<Json, String>)
    ensures
        case_reason(check_view(fixed), false) is None ==> canary(
            CanaryRun::NotWritten(error),
            CanaryRun::Checked(fixed),
        ).text("reason"@) == Some("abs-int-buggy.c"@ + ": could not write fixture: "@ + error@),
        case_reason(check_view(fixed), false) is Some && case_reason(check_view(fixed), true) is None
            ==> canary(CanaryRun::Checked(fixed), CanaryRun::Checked(fixed)).text("reason"@) == Some(
            "abs-int-fixed.c"@ + ": "@ + case_reason(check_view(fixed), false)->0,
        ),
{
    broadcast use crate::json::group_object_reads;

    reveal_strlit("reliable");
    reveal_strlit("reason");
    reveal_strlit("cases");
    assert("reliable"@.len() == 8 && "reason"@.len() == 6);
    assert("cases"@.len() == 5);
    let one = seq!["abs-int-buggy.c"@ + ": could not write fixture: "@ + error@];
    assert(one + Seq::<Seq<char>>::empty() =~= one);
    assert(one.drop_last() =~= Seq::empty());
    reveal_with_fuel(join_spec, 2);
    assert(join_spec(one, "; "@) =~= one[0]);
    if case_reason(check_view(fixed), false) is Some {
        let two = seq!["abs-int-fixed.c"@ + ": "@ + case_reason(check_view(fixed), false)->0];
        assert(Seq::<Seq<char>>::empty() + two =~= two);
        assert(two.drop_last() =~= Seq::empty());
        assert(join_spec(two, "; "@) =~= two[0]);
    }
}

} // verus!
