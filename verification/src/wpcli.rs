//! Frama-C as a command line, with a process of its own for one question: what WP prints, what it
//! hands to Why3, which counterexamples there are, which hypotheses a memory model takes, and what
//! each of several provers makes of the same goals.

use crate::alarms::{json_opt_u32, opt_u32};
use crate::error::{ToolError, ToolErrorView};
use crate::json::{collected, lemma_models_push, lemma_take_next, models, Json, JsonView};
use crate::options::{cli_args, project_cli_args, OptionsView, ProjectLoadOptions};
use crate::outside::{decode_lossy, json_text, utf8_lossy};
use crate::proofread::{proofread_report_with_basis, report};
use crate::session::append_texts;
use crate::text::{
    ascii_lower, cat2, cat3, contains, decimal, decimal_text, int_decimal, int_text, join,
    join_spec, occurs, opt_string, opt_text, own_all, owned, same, texts, to_ascii_lowercase, trim,
    trim_spec,
};
use crate::triage::{
    tasks_failure_kind, triage, triage_none, wp_failure_kind_from_tasks, wp_timeout_triage,
    wp_timeout_triage_none,
};
use crate::types::RunWpParams;
use crate::wpconfig::{
    as_str_of, asked_cache, cache_complaint, cache_mode, effective_par, effective_timeout,
    effective_wp_cache, effective_wp_par_from, effective_wp_timeout_from, env_number,
    environment_number, number_text, opt_decimal, opt_value_text, option_pair, plain_setting,
    plain_setting_value, push_pair, setting, setting_value, used_model, WpEnvironment,
};
use crate::wpmodel::default_wp_model;
use crate::wpout::{
    capped_lossy_string, first_bytes, parse_proved_goals, parse_wp_print_blocks, print_blocks,
    proved_lines, warning_lines, wp_output_warnings,
};
use vstd::prelude::*;

verus! {

// ---------------------------------------------------------------------------
// Processes
// ---------------------------------------------------------------------------

/// What a process that ended left.
pub struct CommandOutput {
    pub success: bool,
    pub code: Option<i32>,
    pub stdout: Vec<u8>,
    pub stderr: Vec<u8>,
}

/// What became of a process.
pub enum CommandRun {
    /// It ended.
    Finished(CommandOutput),
    /// It could not be run.
    NotStarted(String),
    /// It was not waited for any longer.
    TimedOut,
}

/// How a process ended, as a value.
pub open spec fn exit_code(code: Option<i32>) -> JsonView {
    match code {
        Some(n) => JsonView::num(n as int),
        None => JsonView::Null,
    }
}

fn exit_code_value(code: Option<i32>) -> (r: Json)
    ensures
        r@ == exit_code(code),
{
    match code {
        Some(n) => Json::signed(n as i64),
        None => Json::Null,
    }
}

/// Both streams of a process, the output first.
pub open spec fn both_streams(o: CommandOutput) -> Seq<char> {
    utf8_lossy(o.stdout@) + "\n"@ + utf8_lossy(o.stderr@)
}

fn combined_text(o: &CommandOutput) -> (r: String)
    ensures
        r@ == both_streams(*o),
{
    let out = decode_lossy(o.stdout.as_slice());
    let err = decode_lossy(o.stderr.as_slice());
    cat3(out.as_str(), "\n", err.as_str())
}

/// The program and its arguments.
pub open spec fn command(program: Seq<char>, args: Seq<Seq<char>>) -> Seq<Seq<char>> {
    seq![program] + args
}

fn command_value(program: &str, args: &Vec<String>) -> (r: Json)
    ensures
        r@ == JsonView::strings(command(program@, texts(args@))),
{
    let mut line: Vec<String> = vec![owned(program)];
    let more = own_all(args);
    assert(texts(line@) =~= seq![program@]);
    append_texts(&mut line, more);
    Json::strings(&line)
}

/// A flag where it is set.
pub open spec fn flag(name: Seq<char>, set: bool) -> Seq<Seq<char>> {
    if set {
        seq![name]
    } else {
        Seq::empty()
    }
}

fn push_flag(out: &mut Vec<String>, name: &str, set: bool)
    ensures
        texts(final(out)@) == texts(old(out)@) + flag(name@, set),
{
    let ghost before = texts(out@);
    if set {
        out.push(owned(name));
    }
    assert(texts(out@) =~= before + flag(name@, set));
}

/// The options of a project and its files, which every command begins with.
pub open spec fn project_args(options: OptionsView, files: Seq<Seq<char>>) -> Seq<Seq<char>> {
    cli_args(options) + files
}

fn project_arguments(options: &ProjectLoadOptions, files: &Vec<String>) -> (r: Vec<String>)
    ensures
        texts(r@) == project_args(options@, texts(files@)),
{
    let mut out = project_cli_args(options);
    append_texts(&mut out, own_all(files));
    out
}

/// What is answered where there is nothing to run on.
pub open spec fn no_files() -> JsonView {
    JsonView::object().with("status"@, JsonView::Str("unavailable"@)).with(
        "reason"@,
        JsonView::Str("no source files available"@),
    )
}

fn no_files_value() -> (r: Json)
    ensures
        r@ == no_files(),
{
    Json::object().with("status", Json::str("unavailable")).with(
        "reason",
        Json::str("no source files available"),
    )
}

/// The word for how a process ended.
pub open spec fn ending(success: bool) -> JsonView {
    JsonView::Str(
        if success {
            "ok"@
        } else {
            "error"@
        },
    )
}

fn ending_value(success: bool) -> (r: Json)
    ensures
        r@ == ending(success),
{
    if success {
        Json::str("ok")
    } else {
        Json::str("error")
    }
}

// ---------------------------------------------------------------------------
// What WP prints
// ---------------------------------------------------------------------------

/// The arguments with which WP prints the obligations of a function.
pub open spec fn print_args(
    options: OptionsView,
    files: Seq<Seq<char>>,
    rte: bool,
    function: Seq<char>,
) -> Seq<Seq<char>> {
    project_args(options, files) + seq![
        "-wp"@,
        "-wp-print"@,
        "-wp-prover"@,
        "none"@,
        "-wp-fct"@,
        function,
    ] + flag("-wp-rte"@, rte)
}

/// The arguments with which WP prints the obligations of a function.
pub fn wp_print_arguments(
    options: &ProjectLoadOptions,
    files: &Vec<String>,
    rte: bool,
    function: &str,
) -> (r: Vec<String>)
    ensures
        texts(r@) == print_args(options@, texts(files@), rte, function@),
{
    let mut out = project_arguments(options, files);
    let more: Vec<String> = vec![
        owned("-wp"),
        owned("-wp-print"),
        owned("-wp-prover"),
        owned("none"),
        owned("-wp-fct"),
        owned(function),
    ];
    assert(texts(more@) =~= seq![
        "-wp"@,
        "-wp-print"@,
        "-wp-prover"@,
        "none"@,
        "-wp-fct"@,
        function@,
    ]);
    append_texts(&mut out, more);
    push_flag(&mut out, "-wp-rte", rte);
    out
}

/// What is answered with what WP printed.
pub open spec fn printed_answer(
    success: bool,
    code: Option<i32>,
    line: Seq<Seq<char>>,
    stdout: Seq<char>,
    stderr: Seq<char>,
) -> JsonView {
    let blocks = print_blocks(stdout);
    JsonView::object().with("status"@, ending(success)).with("code"@, exit_code(code)).with(
        "command"@,
        JsonView::strings(line),
    ).with("block_count"@, JsonView::num(blocks.len() as int)).with(
        "blocks"@,
        JsonView::Array(blocks),
    ).with(
        "warnings"@,
        JsonView::strings(
            warning_lines(crate::text::lines_spec(stdout)) + warning_lines(
                crate::text::lines_spec(stderr),
            ),
        ),
    ).with("stderr"@, JsonView::Str(trim_spec(stderr)))
}

/// What is answered with what WP printed, by its texts.
pub fn wp_print_answer(
    success: bool,
    code: Option<i32>,
    program: &str,
    args: &Vec<String>,
    stdout: &str,
    stderr: &str,
) -> (r: Json)
    ensures
        r@ == printed_answer(success, code, command(program@, texts(args@)), stdout@, stderr@),
{
    let blocks = parse_wp_print_blocks(stdout);
    let warnings = wp_output_warnings(stdout, stderr);
    let count: usize = blocks.len();
    assert(models(blocks@).len() == count);
    Json::object().with("status", ending_value(success)).with(
        "code",
        exit_code_value(code),
    ).with("command", command_value(program, args)).with(
        "block_count",
        Json::num(count as u64),
    ).with("blocks", Json::array(blocks)).with("warnings", Json::strings(&warnings)).with(
        "stderr",
        Json::Str(trim(stderr)),
    )
}

/// What is answered where a process could not be run.
pub open spec fn not_started(error: Seq<char>) -> JsonView {
    JsonView::object().with("status"@, JsonView::Str("error"@)).with(
        "error"@,
        JsonView::Str(error),
    )
}

fn not_started_value(error: &str) -> (r: Json)
    ensures
        r@ == not_started(error@),
{
    Json::object().with("status", Json::str("error")).with("error", Json::str(error))
}

/// What is answered where a process was not waited for any longer.
pub open spec fn timed_out(budget_seconds: int) -> JsonView {
    JsonView::object().with("status"@, JsonView::Str("timeout"@)).with(
        "timeout_seconds"@,
        JsonView::num(budget_seconds),
    )
}

fn timed_out_value(budget_seconds: u64) -> (r: Json)
    ensures
        r@ == timed_out(budget_seconds as int),
{
    Json::object().with("status", Json::str("timeout")).with(
        "timeout_seconds",
        Json::num(budget_seconds),
    )
}

/// What is answered about the obligations of a function, by what became of the process that was to
/// print them.
pub fn run_wp_print(
    frama_c_path: &str,
    files: &Vec<String>,
    project_options: &ProjectLoadOptions,
    rte: bool,
    function: &str,
    run: &CommandRun,
    budget_seconds: u64,
) -> (r: Json)
    ensures
        r@ == (if files@.len() == 0 {
            no_files()
        } else {
            match *run {
                CommandRun::Finished(o) => printed_answer(
                    o.success,
                    o.code,
                    command(
                        frama_c_path@,
                        print_args(project_options@, texts(files@), rte, function@),
                    ),
                    utf8_lossy(o.stdout@),
                    utf8_lossy(o.stderr@),
                ),
                CommandRun::NotStarted(e) => not_started(e@),
                CommandRun::TimedOut => timed_out(budget_seconds as int),
            }
        }),
{
    if files.len() == 0 {
        return no_files_value();
    }
    match run {
        CommandRun::Finished(o) => {
            let args = wp_print_arguments(project_options, files, rte, function);
            let stdout = decode_lossy(o.stdout.as_slice());
            let stderr = decode_lossy(o.stderr.as_slice());
            wp_print_answer(
                o.success,
                o.code,
                frama_c_path,
                &args,
                stdout.as_str(),
                stderr.as_str(),
            )
        },
        CommandRun::NotStarted(e) => not_started_value(e.as_str()),
        CommandRun::TimedOut => timed_out_value(budget_seconds),
    }
}

// ---------------------------------------------------------------------------
// Which hypotheses a memory model takes
// ---------------------------------------------------------------------------

/// The functions that WP is asked about, each with its option.
pub open spec fn function_args(functions: Seq<Seq<char>>) -> Seq<Seq<char>>
    decreases functions.len(),
{
    if functions.len() == 0 {
        Seq::empty()
    } else {
        function_args(functions.drop_last()) + seq!["-wp-fct"@, functions.last()]
    }
}

/// The arguments with which WP prints the hypotheses of a memory model, about the functions that
/// were proved and no others.
pub open spec fn model_args(
    options: OptionsView,
    files: Seq<Seq<char>>,
    rte: bool,
    model: Option<Seq<char>>,
    functions: Seq<Seq<char>>,
    prop: Option<Seq<char>>,
) -> Seq<Seq<char>> {
    project_args(options, files) + seq!["-wp"@, "-wp-prover"@, "none"@] + option_pair(
        "-wp-model"@,
        model,
    ) + flag("-wp-rte"@, rte) + function_args(functions) + option_pair("-wp-prop"@, prop)
}

fn own_str(o: Option<&str>) -> (r: Option<String>)
    ensures
        opt_string(r) == opt_text(o),
{
    match o {
        Some(s) => Some(owned(s)),
        None => None,
    }
}

/// The arguments with which WP prints the hypotheses of a memory model.
pub fn memory_model_arguments(
    options: &ProjectLoadOptions,
    files: &Vec<String>,
    rte: bool,
    model: Option<&str>,
    functions: &Vec<String>,
    prop: Option<&str>,
) -> (r: Vec<String>)
    ensures
        texts(r@) == model_args(
            options@,
            texts(files@),
            rte,
            opt_text(model),
            texts(functions@),
            opt_text(prop),
        ),
{
    let mut out = project_arguments(options, files);
    let more: Vec<String> = vec![owned("-wp"), owned("-wp-prover"), owned("none")];
    assert(texts(more@) =~= seq!["-wp"@, "-wp-prover"@, "none"@]);
    append_texts(&mut out, more);
    push_pair(&mut out, "-wp-model", own_str(model));
    push_flag(&mut out, "-wp-rte", rte);
    let ghost start = texts(out@);
    let ghost all = texts(functions@);
    let mut i: usize = 0;
    assert(all.subrange(0, 0) =~= Seq::empty());
    assert(start =~= start + function_args(all.subrange(0, 0)));
    while i < functions.len()
        invariant
            i <= functions@.len(),
            all == texts(functions@),
            texts(out@) == start + function_args(all.subrange(0, i as int)),
        decreases functions@.len() - i,
    {
        proof {
            lemma_take_next(all, i as int);
            assert(all[i as int] == functions@[i as int]@);
        }
        push_pair(&mut out, "-wp-fct", Some(owned(functions[i].as_str())));
        assert(texts(out@) =~= start + function_args(all.subrange(0, i as int + 1)));
        i = i + 1;
    }
    assert(all.subrange(0, i as int) =~= all);
    push_pair(&mut out, "-wp-prop", own_str(prop));
    out
}

/// How many bytes of a stream are shown.
pub const MAX_PROBE_STDERR_BYTES: usize = 4096;

/// How a process ended, in words.
pub open spec fn exit_words(code: Option<i32>) -> Seq<char> {
    match code {
        Some(n) => int_decimal(n as int),
        None => "on a signal"@,
    }
}

/// What is known of the hypotheses of a memory model.
pub enum ModelProbe {
    /// There was no process to ask, and why.
    Absent(String),
    /// What the process said.
    Answered(Json),
}

/// Why there was no process to ask, if there was none.
pub open spec fn probe_absence(files: Seq<Seq<char>>, run: CommandRun, budget_seconds: int) -> Option<
    Seq<char>,
> {
    if files.len() == 0 {
        Some("no source files available"@)
    } else {
        match run {
            CommandRun::Finished(_) => None,
            CommandRun::NotStarted(e) => Some("frama-c could not be started: "@ + e@),
            CommandRun::TimedOut => Some(
                "the memory-model probe exceeded "@ + decimal(budget_seconds as nat)
                    + " seconds"@,
            ),
        }
    }
}

/// What a process said of the hypotheses of a memory model. One that failed has not shown that
/// there are none, and what it printed before is still true.
pub open spec fn model_answer(
    read_from: Seq<char>,
    model: Option<Seq<char>>,
    line: Seq<Seq<char>>,
    o: CommandOutput,
    hypotheses: Seq<JsonView>,
) -> JsonView {
    let cap = MAX_PROBE_STDERR_BYTES as int;
    if o.success {
        JsonView::object().with("ran"@, JsonView::Bool(true)).with(
            "read_from"@,
            JsonView::Str(read_from),
        ).with("model"@, JsonView::opt_text(model)).with("command"@, JsonView::strings(line)).with(
            "exit_code"@,
            exit_code(o.code),
        ).with("hypotheses"@, JsonView::Array(hypotheses))
    } else {
        JsonView::object().with("ran"@, JsonView::Bool(false)).with(
            "read_from"@,
            JsonView::Str(read_from),
        ).with(
            "reason"@,
            JsonView::Str(
                "frama-c exited "@ + exit_words(o.code) + " during the memory-model probe"@,
            ),
        ).with("model"@, JsonView::opt_text(model)).with("command"@, JsonView::strings(line)).with(
            "exit_code"@,
            exit_code(o.code),
        ).with(
            "stdout"@,
            JsonView::Str(trim_spec(utf8_lossy(first_bytes(o.stdout@, cap)))),
        ).with("stdout_truncated"@, JsonView::Bool(o.stdout@.len() > cap)).with(
            "stderr"@,
            JsonView::Str(trim_spec(utf8_lossy(first_bytes(o.stderr@, cap)))),
        ).with("stderr_truncated"@, JsonView::Bool(o.stderr@.len() > cap)).with(
            "hypotheses"@,
            JsonView::Array(hypotheses),
        )
    }
}

fn model_answer_value(
    read_from: &str,
    model: Option<&str>,
    program: &str,
    args: &Vec<String>,
    o: &CommandOutput,
    hypotheses: Vec<Json>,
) -> (r: Json)
    ensures
        r@ == model_answer(
            read_from@,
            opt_text(model),
            command(program@, texts(args@)),
            *o,
            models(hypotheses@),
        ),
{
    if o.success {
        return Json::object().with("ran", Json::Bool(true)).with(
            "read_from",
            Json::str(read_from),
        ).with("model", Json::opt_str(model)).with("command", command_value(program, args)).with(
            "exit_code",
            exit_code_value(o.code),
        ).with("hypotheses", Json::array(hypotheses));
    }
    let words = match o.code {
        Some(n) => int_text(n as i64),
        None => owned("on a signal"),
    };
    let (stdout, stdout_more) = capped_lossy_string(o.stdout.as_slice(), MAX_PROBE_STDERR_BYTES);
    let (stderr, stderr_more) = capped_lossy_string(o.stderr.as_slice(), MAX_PROBE_STDERR_BYTES);
    Json::object().with("ran", Json::Bool(false)).with("read_from", Json::str(read_from)).with(
        "reason",
        Json::Str(cat3("frama-c exited ", words.as_str(), " during the memory-model probe")),
    ).with("model", Json::opt_str(model)).with("command", command_value(program, args)).with(
        "exit_code",
        exit_code_value(o.code),
    ).with("stdout", Json::Str(trim(stdout.as_str()))).with(
        "stdout_truncated",
        Json::Bool(stdout_more),
    ).with("stderr", Json::Str(trim(stderr.as_str()))).with(
        "stderr_truncated",
        Json::Bool(stderr_more),
    ).with("hypotheses", Json::array(hypotheses))
}

/// What a process is asked about the hypotheses of a memory model.
pub struct ModelQuestion<'a> {
    pub frama_c_path: &'a str,
    pub files: &'a Vec<String>,
    pub project_options: &'a ProjectLoadOptions,
    pub rte: bool,
    pub model: Option<&'a str>,
    pub functions: &'a Vec<String>,
    pub prop: Option<&'a str>,
}

/// The command with which a question is put.
pub open spec fn question_line(q: ModelQuestion) -> Seq<Seq<char>> {
    command(
        q.frama_c_path@,
        model_args(
            q.project_options@,
            texts(q.files@),
            q.rte,
            opt_text(q.model),
            texts(q.functions@),
            opt_text(q.prop),
        ),
    )
}

/// What is known of the hypotheses of a memory model, by what became of the process and which
/// hypotheses its output names.
pub fn run_wp_memory_model_probe(
    question: &ModelQuestion,
    run: &CommandRun,
    hypotheses: Vec<Json>,
    read_from: &str,
    budget_seconds: u64,
) -> (r: ModelProbe)
    ensures
        match (
            r,
            probe_absence(texts(question.files@), *run, budget_seconds as int),
            *run,
        ) {
            (ModelProbe::Absent(reason), Some(why), _) => reason@ == why,
            (ModelProbe::Answered(v), None, CommandRun::Finished(o)) => v@ == model_answer(
                read_from@,
                opt_text(question.model),
                question_line(*question),
                o,
                models(hypotheses@),
            ),
            _ => false,
        },
{
    assert(texts(question.files@).len() == question.files@.len());
    if question.files.len() == 0 {
        return ModelProbe::Absent(owned("no source files available"));
    }
    match run {
        CommandRun::NotStarted(e) => ModelProbe::Absent(
            cat2("frama-c could not be started: ", e.as_str()),
        ),
        CommandRun::TimedOut => {
            let n = decimal_text(budget_seconds);
            ModelProbe::Absent(cat3("the memory-model probe exceeded ", n.as_str(), " seconds"))
        },
        CommandRun::Finished(o) => {
            let args = memory_model_arguments(
                question.project_options,
                question.files,
                question.rte,
                question.model,
                question.functions,
                question.prop,
            );
            ModelProbe::Answered(
                model_answer_value(
                    read_from,
                    question.model,
                    question.frama_c_path,
                    &args,
                    o,
                    hypotheses,
                ),
            )
        },
    }
}

// ---------------------------------------------------------------------------
// What WP hands to Why3
// ---------------------------------------------------------------------------

/// How many dumps are shown.
pub const MAX_WHY3_DUMP_FILES: usize = 16;

/// How large a dump may be to be shown.
pub const MAX_WHY3_DUMP_BYTES: u64 = 262144;

/// What the directory of a dump is called, up to what is drawn at random. The colon of a sandbox
/// does not stand in it.
pub fn why3_dump_prefix(function: &str) -> (r: String)
    ensures
        r@ == "frama-c-why3-dump-"@ + join_spec(
            crate::text::pieces(function@, ':'),
            "-"@,
        ) + "-"@,
{
    let parts = crate::text::split_char(function, ':');
    let name = join(&parts, "-");
    cat3("frama-c-why3-dump-", name.as_str(), "-")
}

/// What is answered where there is no directory to dump to.
pub fn why3_dump_unwritable() -> (r: Json)
    ensures
        r@ == JsonView::object().with("status"@, JsonView::Str("error"@)).with(
            "reason"@,
            JsonView::Str("could not create a temporary directory for the why3 dump"@),
        ),
{
    Json::object().with("status", Json::str("error")).with(
        "reason",
        Json::str("could not create a temporary directory for the why3 dump"),
    )
}

/// The arguments with which WP dumps what it hands to Why3.
pub open spec fn dump_args(
    options: OptionsView,
    files: Seq<Seq<char>>,
    rte: bool,
    function: Seq<char>,
    provers: Seq<char>,
    out_dir: Seq<char>,
) -> Seq<Seq<char>> {
    project_args(options, files) + seq![
        "-wp"@,
        "-wp-gen"@,
        "-wp-prover"@,
        provers,
        "-wp-out"@,
        out_dir,
        "-wp-fct"@,
        function,
    ] + flag("-wp-rte"@, rte)
}

/// The arguments with which WP dumps what it hands to Why3.
pub fn why3_dump_arguments(
    options: &ProjectLoadOptions,
    files: &Vec<String>,
    rte: bool,
    function: &str,
    provers: &str,
    out_dir: &str,
) -> (r: Vec<String>)
    ensures
        texts(r@) == dump_args(options@, texts(files@), rte, function@, provers@, out_dir@),
{
    let mut out = project_arguments(options, files);
    let more: Vec<String> = vec![
        owned("-wp"),
        owned("-wp-gen"),
        owned("-wp-prover"),
        owned(provers),
        owned("-wp-out"),
        owned(out_dir),
        owned("-wp-fct"),
        owned(function),
    ];
    assert(texts(more@) =~= seq![
        "-wp"@,
        "-wp-gen"@,
        "-wp-prover"@,
        provers@,
        "-wp-out"@,
        out_dir@,
        "-wp-fct"@,
        function@,
    ]);
    append_texts(&mut out, more);
    push_flag(&mut out, "-wp-rte", rte);
    out
}

/// What a dump came to.
pub struct Why3Dump<'a> {
    pub frama_c_path: &'a str,
    pub files: &'a Vec<String>,
    pub project_options: &'a ProjectLoadOptions,
    pub rte: bool,
    pub function: &'a str,
    pub provers: &'a str,
    pub out_dir: &'a str,
}

/// What is answered with what WP handed to Why3.
pub open spec fn dump_answer(
    d: Why3Dump,
    success: bool,
    code: Option<i32>,
    dumps: Seq<JsonView>,
    files_omitted: int,
    stdout: Seq<char>,
    stderr: Seq<char>,
) -> JsonView {
    let args = dump_args(
        d.project_options@,
        texts(d.files@),
        d.rte,
        d.function@,
        d.provers@,
        d.out_dir@,
    );
    JsonView::object().with(
        "status"@,
        JsonView::Str(
            if !success {
                "error"@
            } else if dumps.len() == 0 {
                "not_found"@
            } else {
                "ok"@
            },
        ),
    ).with("code"@, exit_code(code)).with("wp_out"@, JsonView::Str(d.out_dir@)).with(
        "command"@,
        JsonView::strings(command(d.frama_c_path@, args)),
    ).with("file_count"@, JsonView::num(dumps.len() as int)).with(
        "files_omitted"@,
        JsonView::num(files_omitted),
    ).with("files"@, JsonView::Array(dumps)).with("stdout"@, JsonView::Str(trim_spec(stdout))).with(
        "stderr"@,
        JsonView::Str(trim_spec(stderr)),
    )
}

/// What is answered with what WP handed to Why3, by the texts of the process.
pub fn why3_dump_answer(
    d: &Why3Dump,
    success: bool,
    code: Option<i32>,
    dumps: Vec<Json>,
    files_omitted: usize,
    stdout: &str,
    stderr: &str,
) -> (r: Json)
    ensures
        r@ == dump_answer(
            *d,
            success,
            code,
            models(dumps@),
            files_omitted as int,
            stdout@,
            stderr@,
        ),
{
    let args = why3_dump_arguments(
        d.project_options,
        d.files,
        d.rte,
        d.function,
        d.provers,
        d.out_dir,
    );
    let count: usize = dumps.len();
    assert(models(dumps@).len() == count);
    let status = if !success {
        "error"
    } else if count == 0 {
        "not_found"
    } else {
        "ok"
    };
    Json::object().with("status", Json::str(status)).with("code", exit_code_value(code)).with(
        "wp_out",
        Json::str(d.out_dir),
    ).with("command", command_value(d.frama_c_path, &args)).with(
        "file_count",
        Json::num(count as u64),
    ).with("files_omitted", Json::num(files_omitted as u64)).with("files", Json::array(dumps)).with(
        "stdout",
        Json::Str(trim(stdout)),
    ).with("stderr", Json::Str(trim(stderr)))
}

/// What is answered about what WP hands to Why3, by what became of the process and which dumps it
/// left. A process that did not end left nothing to count.
pub fn run_why3_dump(
    d: &Why3Dump,
    run: &CommandRun,
    dumps: Vec<Json>,
    files_omitted: usize,
    budget_seconds: u64,
) -> (r: Json)
    ensures
        r@ == (if d.files@.len() == 0 {
            no_files()
        } else {
            match *run {
                CommandRun::Finished(o) => dump_answer(
                    *d,
                    o.success,
                    o.code,
                    models(dumps@),
                    files_omitted as int,
                    utf8_lossy(o.stdout@),
                    utf8_lossy(o.stderr@),
                ),
                CommandRun::NotStarted(e) => not_started(e@).with(
                    "wp_out"@,
                    JsonView::Str(d.out_dir@),
                ),
                CommandRun::TimedOut => timed_out(budget_seconds as int).with(
                    "wp_out"@,
                    JsonView::Str(d.out_dir@),
                ),
            }
        }),
{
    if d.files.len() == 0 {
        return no_files_value();
    }
    match run {
        CommandRun::Finished(o) => {
            let stdout = decode_lossy(o.stdout.as_slice());
            let stderr = decode_lossy(o.stderr.as_slice());
            why3_dump_answer(
                d,
                o.success,
                o.code,
                dumps,
                files_omitted,
                stdout.as_str(),
                stderr.as_str(),
            )
        },
        CommandRun::NotStarted(e) => not_started_value(e.as_str()).with(
            "wp_out",
            Json::str(d.out_dir),
        ),
        CommandRun::TimedOut => timed_out_value(budget_seconds).with(
            "wp_out",
            Json::str(d.out_dir),
        ),
    }
}

// ---------------------------------------------------------------------------
// Counterexamples
// ---------------------------------------------------------------------------

/// How many bytes of a stream are shown with counterexamples.
pub const MAX_COUNTER_EXAMPLE_OUTPUT_BYTES: usize = 262144;

/// The arguments with which WP looks for counterexamples.
pub open spec fn counter_args(
    options: OptionsView,
    files: Seq<Seq<char>>,
    rte: bool,
    function: Seq<char>,
    provers: Seq<char>,
) -> Seq<Seq<char>> {
    project_args(options, files) + seq![
        "-wp"@,
        "-wp-counter-examples"@,
        "-wp-prover"@,
        provers,
        "-wp-fct"@,
        function,
    ] + flag("-wp-rte"@, rte)
}

/// The arguments with which WP looks for counterexamples.
pub fn counter_example_arguments(
    options: &ProjectLoadOptions,
    files: &Vec<String>,
    rte: bool,
    function: &str,
    provers: &str,
) -> (r: Vec<String>)
    ensures
        texts(r@) == counter_args(options@, texts(files@), rte, function@, provers@),
{
    let mut out = project_arguments(options, files);
    let more: Vec<String> = vec![
        owned("-wp"),
        owned("-wp-counter-examples"),
        owned("-wp-prover"),
        owned(provers),
        owned("-wp-fct"),
        owned(function),
    ];
    assert(texts(more@) =~= seq![
        "-wp"@,
        "-wp-counter-examples"@,
        "-wp-prover"@,
        provers@,
        "-wp-fct"@,
        function@,
    ]);
    append_texts(&mut out, more);
    push_flag(&mut out, "-wp-rte", rte);
    out
}

/// An answer without what a process printed.
pub open spec fn without_output(answer: JsonView, line: JsonView) -> JsonView {
    answer.with("command"@, line).with("raw_stdout"@, JsonView::Null).with(
        "raw_stderr"@,
        JsonView::Null,
    ).with("truncated"@, JsonView::Bool(false))
}

fn without_output_value(answer: Json, line: Json) -> (r: Json)
    ensures
        r@ == without_output(answer@, line@),
{
    answer.with("command", line).with("raw_stdout", Json::Null).with(
        "raw_stderr",
        Json::Null,
    ).with("truncated", Json::Bool(false))
}

/// What is answered about counterexamples.
pub open spec fn counter_answer(
    files: Seq<Seq<char>>,
    line: Seq<Seq<char>>,
    run: CommandRun,
    budget_seconds: int,
) -> JsonView {
    let cap = MAX_COUNTER_EXAMPLE_OUTPUT_BYTES as int;
    if files.len() == 0 {
        without_output(no_files(), JsonView::Array(Seq::empty()))
    } else {
        match run {
            CommandRun::Finished(o) => JsonView::object().with("status"@, ending(o.success)).with(
                "code"@,
                exit_code(o.code),
            ).with("command"@, JsonView::strings(line)).with(
                "raw_stdout"@,
                JsonView::Str(utf8_lossy(first_bytes(o.stdout@, cap))),
            ).with("raw_stderr"@, JsonView::Str(utf8_lossy(first_bytes(o.stderr@, cap)))).with(
                "truncated"@,
                JsonView::Bool(o.stdout@.len() > cap || o.stderr@.len() > cap),
            ),
            CommandRun::NotStarted(e) => without_output(
                not_started(e@),
                JsonView::strings(line),
            ),
            CommandRun::TimedOut => without_output(
                timed_out(budget_seconds),
                JsonView::strings(line),
            ),
        }
    }
}

/// What is answered about counterexamples, by what became of the process that was to find them.
pub fn run_wp_counter_examples(
    frama_c_path: &str,
    files: &Vec<String>,
    args: &Vec<String>,
    run: &CommandRun,
    budget_seconds: u64,
) -> (r: Json)
    ensures
        r@ == counter_answer(
            texts(files@),
            command(frama_c_path@, texts(args@)),
            *run,
            budget_seconds as int,
        ),
{
    assert(texts(files@).len() == files@.len());
    if files.len() == 0 {
        return without_output_value(no_files_value(), Json::list0());
    }
    let line = command_value(frama_c_path, args);
    match run {
        CommandRun::Finished(o) => {
            let cap: usize = MAX_COUNTER_EXAMPLE_OUTPUT_BYTES;
            let (stdout, more_out) = capped_lossy_string(o.stdout.as_slice(), cap);
            let (stderr, more_err) = capped_lossy_string(o.stderr.as_slice(), cap);
            Json::object().with("status", ending_value(o.success)).with(
                "code",
                exit_code_value(o.code),
            ).with("command", line).with("raw_stdout", Json::Str(stdout)).with(
                "raw_stderr",
                Json::Str(stderr),
            ).with("truncated", Json::Bool(more_out || more_err))
        },
        CommandRun::NotStarted(e) => without_output_value(not_started_value(e.as_str()), line),
        CommandRun::TimedOut => without_output_value(timed_out_value(budget_seconds), line),
    }
}

// ---------------------------------------------------------------------------
// One prover at a time
// ---------------------------------------------------------------------------

/// A retry with one prover at a time: which files to load, what to prove in them, and with which
/// provers. In a sandbox the names of functions there differ from those that the caller used.
pub struct IsolatedWpRetry<'a> {
    pub files: Vec<String>,
    pub project_options: ProjectLoadOptions,
    pub rte_enabled: bool,
    pub functions: Vec<String>,
    pub reported_functions: Vec<String>,
    pub provers: Vec<String>,
    pub params: &'a RunWpParams,
    pub scope: &'a str,
}

/// The settings that every attempt has.
pub struct RetrySettings {
    pub timeout: Option<u32>,
    pub par: Option<u32>,
    pub cache: String,
}

/// Whether settings are those of a call in an environment.
pub open spec fn are_settings(s: RetrySettings, p: RunWpParams, env: WpEnvironment) -> bool {
    &&& effective_timeout(p, opt_string(env.timeout)) == Ok::<_, Seq<char>>(opt_u32(s.timeout))
    &&& effective_par(p, opt_string(env.par)) == Ok::<_, Seq<char>>(opt_u32(s.par))
    &&& cache_mode(asked_cache(p)) is Some
    &&& s.cache@ == ascii_lower(cache_mode(asked_cache(p))->0)
}

/// What is wrong with the settings of a call in an environment, if anything is.
pub open spec fn settings_complaint(p: RunWpParams, env: WpEnvironment) -> Option<Seq<char>> {
    match effective_timeout(p, opt_string(env.timeout)) {
        Err(e) => Some(e),
        Ok(_) => match effective_par(p, opt_string(env.par)) {
            Err(e) => Some(e),
            Ok(_) => if cache_mode(asked_cache(p)) is None {
                Some(cache_complaint(asked_cache(p)))
            } else {
                None
            },
        },
    }
}

/// The settings that every attempt has. On a command line the mode of the cache is spelled in
/// small letters.
pub fn retry_settings(params: &RunWpParams, env: &WpEnvironment) -> (r: Result<
    RetrySettings,
    ToolError,
>)
    ensures
        match r {
            Ok(s) => settings_complaint(*params, *env) is None && are_settings(s, *params, *env),
            Err(e) => settings_complaint(*params, *env) is Some && e@ == ToolErrorView::invalid(
                settings_complaint(*params, *env)->0,
            ),
        },
{
    let timeout = effective_wp_timeout_from(params, as_str_of(&env.timeout))?;
    let par = effective_wp_par_from(params, as_str_of(&env.par))?;
    let mode = effective_wp_cache(params)?;
    Ok(RetrySettings { timeout, par, cache: to_ascii_lowercase(mode) })
}

/// The arguments of an attempt with one prover.
pub open spec fn retry_args(retry: IsolatedWpRetry, s: RetrySettings, prover: Seq<char>) -> Seq<
    Seq<char>,
> {
    project_args(retry.project_options@, texts(retry.files@)) + seq![
        "-wp"@,
        "-wp-prover"@,
        prover,
        "-wp-model"@,
        used_model(*retry.params),
    ] + flag("-wp-rte"@, retry.rte_enabled) + option_pair(
        "-wp-timeout"@,
        opt_decimal(opt_u32(s.timeout)),
    ) + option_pair("-wp-par"@, opt_decimal(opt_u32(s.par))) + option_pair(
        "-wp-prop"@,
        opt_string(retry.params.prop),
    ) + flag("-wp-smoke-tests"@, retry.params.smoke == Some(true)) + seq![
        "-wp-cache"@,
        s.cache@,
    ] + option_pair(
        "-wp-fct"@,
        if retry.functions@.len() == 0 {
            None
        } else {
            Some(join_spec(texts(retry.functions@), ","@))
        },
    )
}

fn used_model_name(params: &RunWpParams) -> (r: &str)
    ensures
        r@ == used_model(*params),
{
    match &params.model {
        Some(m) => m.as_str(),
        None => default_wp_model(),
    }
}

fn asks_for_smoke(params: &RunWpParams) -> (r: bool)
    ensures
        r == (params.smoke == Some(true)),
{
    match params.smoke {
        Some(b) => b,
        None => false,
    }
}

/// The arguments of an attempt with one prover.
pub fn retry_arguments(retry: &IsolatedWpRetry, settings: &RetrySettings, prover: &str) -> (r: Vec<
    String,
>)
    ensures
        texts(r@) == retry_args(*retry, *settings, prover@),
{
    let mut out = project_arguments(&retry.project_options, &retry.files);
    let more: Vec<String> = vec![
        owned("-wp"),
        owned("-wp-prover"),
        owned(prover),
        owned("-wp-model"),
        owned(used_model_name(retry.params)),
    ];
    assert(texts(more@) =~= seq![
        "-wp"@,
        "-wp-prover"@,
        prover@,
        "-wp-model"@,
        used_model(*retry.params),
    ]);
    append_texts(&mut out, more);
    push_flag(&mut out, "-wp-rte", retry.rte_enabled);
    push_pair(&mut out, "-wp-timeout", number_text(settings.timeout));
    push_pair(&mut out, "-wp-par", number_text(settings.par));
    push_pair(&mut out, "-wp-prop", crate::markers::copy_opt(&retry.params.prop));
    push_flag(&mut out, "-wp-smoke-tests", asks_for_smoke(retry.params));
    let cache: Vec<String> = vec![owned("-wp-cache"), owned(settings.cache.as_str())];
    assert(texts(cache@) =~= seq!["-wp-cache"@, settings.cache@]);
    append_texts(&mut out, cache);
    let names = if retry.functions.len() == 0 {
        None
    } else {
        Some(join(&retry.functions, ","))
    };
    push_pair(&mut out, "-wp-fct", names);
    out
}

/// How many seconds an attempt is waited for.
pub fn command_timeout_seconds(timeout: Option<u32>) -> (r: u64)
    ensures
        r == (match timeout {
            Some(t) => t + 30,
            None => 630,
        }),
{
    match timeout {
        Some(t) => t as u64 + 30,
        None => 630,
    }
}

/// What is said of an attempt that was not waited for any longer.
pub const RETRY_TIMED_OUT: &'static str =
    "The isolated Frama-C process exceeded the MCP-side command timeout.";

/// What is said of an attempt whose output speaks of a timeout.
pub const RETRY_MENTIONS_TIMEOUT: &'static str = "The isolated WP prover output mentions timeout.";

/// A field and its value, as evidence.
pub open spec fn evidence(field: Seq<char>, value: JsonView) -> JsonView {
    JsonView::Array(
        seq![JsonView::object().with("field"@, JsonView::Str(field)).with("value"@, value)],
    )
}

fn evidence_value(field: &str, value: Json) -> (r: Json)
    ensures
        r@ == evidence(field@, value@),
{
    Json::list1(Json::object().with("field", Json::str(field)).with("value", value))
}

/// How an attempt that was not waited for any longer is reported.
pub open spec fn attempt_timed_out(prover: Seq<char>, timeout: Option<u32>) -> JsonView {
    JsonView::object().with("prover"@, JsonView::Str(prover)).with(
        "success"@,
        JsonView::Bool(false),
    ).with("exit_code"@, JsonView::Null).with("proved_goals"@, JsonView::num(0)).with(
        "total_goals"@,
        JsonView::num(0),
    ).with("timeout_seconds"@, JsonView::opt_int(opt_u32(timeout))).with(
        "wp_timeout_triage"@,
        triage(
            "mcp_server_timeout"@,
            false,
            "high"@,
            RETRY_TIMED_OUT@,
            evidence(
                "command_timeout_seconds"@,
                JsonView::num(
                    match timeout {
                        Some(t) => t + 30,
                        None => 630,
                    },
                ),
            ),
        ),
    )
}

/// How an attempt that ended is reported, by what it printed.
pub open spec fn attempt_ended(
    prover: Seq<char>,
    timeout: Option<u32>,
    success: bool,
    code: Option<i32>,
    printed: Seq<char>,
) -> JsonView {
    let (proved, total) = proved_lines(crate::text::lines_spec(printed));
    JsonView::object().with("prover"@, JsonView::Str(prover)).with(
        "success"@,
        JsonView::Bool(success),
    ).with("exit_code"@, exit_code(code)).with("proved_goals"@, JsonView::opt_int(proved)).with(
        "total_goals"@,
        JsonView::opt_int(total),
    ).with("timeout_seconds"@, JsonView::opt_int(opt_u32(timeout))).with(
        "wp_timeout_triage"@,
        if occurs(ascii_lower(printed), "timeout"@) {
            triage(
                "prover_timeout"@,
                true,
                "medium"@,
                RETRY_MENTIONS_TIMEOUT@,
                evidence("output_contains"@, JsonView::Str("timeout"@)),
            )
        } else {
            triage_none()
        },
    )
}

/// How an attempt that ended is reported, by what it printed.
pub fn retry_attempt_of_text(
    prover: &str,
    timeout: Option<u32>,
    success: bool,
    code: Option<i32>,
    printed: &str,
) -> (r: Json)
    ensures
        r@ == attempt_ended(prover@, timeout, success, code, printed@),
{
    let (proved, total) = parse_proved_goals(printed);
    let lower = to_ascii_lowercase(printed);
    let judged = if contains(lower.as_str(), "timeout") {
        wp_timeout_triage(
            "prover_timeout",
            true,
            "medium",
            RETRY_MENTIONS_TIMEOUT,
            evidence_value("output_contains", Json::str("timeout")),
        )
    } else {
        wp_timeout_triage_none()
    };
    Json::object().with("prover", Json::str(prover)).with("success", Json::Bool(success)).with(
        "exit_code",
        exit_code_value(code),
    ).with("proved_goals", Json::opt_num(proved)).with("total_goals", Json::opt_num(total)).with(
        "timeout_seconds",
        json_opt_u32(timeout),
    ).with("wp_timeout_triage", judged)
}

/// What the attempts so far came to: the reports on them, the hypotheses that the first of those
/// that succeeded printed, and those that the others printed. Which attempt printed a list is part
/// of what it is worth, so the two are kept apart.
pub struct RetryState {
    pub attempts: Vec<Json>,
    pub complete: Option<Vec<Json>>,
    pub partial: Vec<Json>,
}

/// Values, as views, if there are any.
pub open spec fn opt_models(o: Option<Vec<Json>>) -> Option<Seq<JsonView>> {
    match o {
        Some(v) => Some(models(v@)),
        None => None,
    }
}

/// What the attempts came to, as a mathematical object.
#[verifier::ext_equal]
pub struct RetryView {
    pub attempts: Seq<JsonView>,
    pub complete: Option<Seq<JsonView>>,
    pub partial: Seq<JsonView>,
}

impl View for RetryState {
    type V = RetryView;

    open spec fn view(&self) -> RetryView {
        RetryView {
            attempts: models(self.attempts@),
            complete: opt_models(self.complete),
            partial: models(self.partial@),
        }
    }
}

/// What the attempts came to after one more that ended. `reading` are the hypotheses that it
/// printed, and `merged` are those together with the ones that others which failed printed before.
pub open spec fn after_attempt(
    s: RetryView,
    attempt: JsonView,
    success: bool,
    reading: Seq<JsonView>,
    merged: Seq<JsonView>,
) -> RetryView {
    RetryView {
        attempts: s.attempts.push(attempt),
        complete: if success && s.complete is None {
            Some(reading)
        } else {
            s.complete
        },
        partial: if success {
            s.partial
        } else {
            merged
        },
    }
}

/// No attempts yet.
pub fn no_attempts() -> (r: RetryState)
    ensures
        r@ == (RetryView {
            attempts: Seq::empty(),
            complete: None,
            partial: Seq::empty(),
        }),
{
    let attempts: Vec<Json> = Vec::new();
    let partial: Vec<Json> = Vec::new();
    assert(models(attempts@) =~= Seq::empty());
    assert(models(partial@) =~= Seq::empty());
    RetryState { attempts, complete: None, partial }
}

/// Takes in an attempt. One that could not be run ends the retry.
pub fn take_attempt(
    state: RetryState,
    prover: &str,
    settings: &RetrySettings,
    run: &CommandRun,
    reading: Vec<Json>,
    merged: Vec<Json>,
) -> (r: Result<RetryState, ToolError>)
    ensures
        match *run {
            CommandRun::NotStarted(error) => r matches Err(e) && e@ == ToolErrorView::internal(
                "failed to run isolated WP retry: "@ + error@,
            ),
            CommandRun::TimedOut => r matches Ok(s) && s@ == (RetryView {
                attempts: state@.attempts.push(attempt_timed_out(prover@, settings.timeout)),
                ..state@
            }),
            CommandRun::Finished(o) => r matches Ok(s) && s@ == after_attempt(
                state@,
                attempt_ended(prover@, settings.timeout, o.success, o.code, both_streams(o)),
                o.success,
                models(reading@),
                models(merged@),
            ),
        },
{
    let RetryState { attempts, complete, partial } = state;
    let mut attempts = attempts;
    let ghost before = attempts@;
    match run {
        CommandRun::NotStarted(error) => Err(
            ToolError::internal(cat2("failed to run isolated WP retry: ", error.as_str())),
        ),
        CommandRun::TimedOut => {
            let waited = command_timeout_seconds(settings.timeout);
            let judged = wp_timeout_triage(
                "mcp_server_timeout",
                false,
                "high",
                RETRY_TIMED_OUT,
                evidence_value("command_timeout_seconds", Json::num(waited)),
            );
            let attempt = Json::object().with("prover", Json::str(prover)).with(
                "success",
                Json::Bool(false),
            ).with("exit_code", Json::Null).with("proved_goals", Json::num(0)).with(
                "total_goals",
                Json::num(0),
            ).with("timeout_seconds", json_opt_u32(settings.timeout)).with(
                "wp_timeout_triage",
                judged,
            );
            proof {
                lemma_models_push(attempts@, attempt);
            }
            attempts.push(attempt);
            Ok(RetryState { attempts, complete, partial })
        },
        CommandRun::Finished(o) => {
            let printed = combined_text(o);
            let attempt = retry_attempt_of_text(
                prover,
                settings.timeout,
                o.success,
                o.code,
                printed.as_str(),
            );
            proof {
                lemma_models_push(attempts@, attempt);
            }
            attempts.push(attempt);
            if o.success {
                let complete = match complete {
                    Some(c) => Some(c),
                    None => Some(reading),
                };
                Ok(RetryState { attempts, complete, partial })
            } else {
                Ok(RetryState { attempts, complete, partial: merged })
            }
        },
    }
}

/// What is said of timeouts: the first attempt that has something to say.
pub open spec fn first_triage(attempts: Seq<JsonView>, i: int) -> JsonView
    decreases attempts.len() - i,
{
    if i < 0 || i >= attempts.len() {
        triage_none()
    } else {
        match attempts[i].get("wp_timeout_triage"@) {
            Some(t) => if t.text("kind"@) != Some("none"@) {
                t
            } else {
                first_triage(attempts, i + 1)
            },
            None => first_triage(attempts, i + 1),
        }
    }
}

fn first_triage_value(attempts: &Vec<Json>) -> (r: Json)
    ensures
        r@ == first_triage(models(attempts@), 0),
{
    let ghost all = models(attempts@);
    let mut i: usize = 0;
    while i < attempts.len()
        invariant
            i <= attempts@.len(),
            all == models(attempts@),
            first_triage(all, 0) == first_triage(all, i as int),
        decreases attempts@.len() - i,
    {
        assert(all[i as int] == attempts@[i as int]@);
        match attempts[i].get("wp_timeout_triage") {
            Some(t) => {
                let none = match t.text("kind") {
                    Some(k) => same(k, "none"),
                    None => false,
                };
                if !none {
                    return t.copy();
                }
            },
            None => {},
        }
        i = i + 1;
    }
    assert(all.len() == attempts@.len());
    wp_timeout_triage_none()
}

/// What is said where no attempt succeeded.
pub const NO_ATTEMPT_SUCCEEDED: &'static str =
    "no isolated Frama-C attempt completed successfully; see wp_attempts for exit_code";

/// What is known of the hypotheses of the memory model. A list of an attempt that succeeded is
/// complete, and outranks the lists of others, also where it is empty.
pub open spec fn retry_probe(s: RetryView, model: Seq<char>, read_from: Seq<char>) -> JsonView {
    match s.complete {
        Some(hypotheses) => JsonView::object().with("ran"@, JsonView::Bool(true)).with(
            "reason"@,
            JsonView::Null,
        ).with("read_from"@, JsonView::Str(read_from)).with("model"@, JsonView::Str(model)).with(
            "hypotheses"@,
            JsonView::Array(hypotheses),
        ),
        None => JsonView::object().with("ran"@, JsonView::Bool(false)).with(
            "reason"@,
            JsonView::Str(NO_ATTEMPT_SUCCEEDED@),
        ).with("read_from"@, JsonView::Str(read_from)).with("model"@, JsonView::Str(model)).with(
            "hypotheses"@,
            JsonView::Array(s.partial),
        ),
    }
}

/// Whether smoke tests were asked for, as a value.
pub open spec fn smoke_asked(p: RunWpParams) -> JsonView {
    match p.smoke {
        Some(b) => JsonView::Bool(b),
        None => JsonView::Null,
    }
}

/// The settings of a retry, as they are reported.
pub open spec fn retry_config(
    retry: IsolatedWpRetry,
    s: RetrySettings,
    env: WpEnvironment,
) -> JsonView {
    let p = *retry.params;
    let provers = JsonView::strings(texts(retry.provers@));
    let prop = JsonView::opt_text(opt_string(p.prop));
    JsonView::object().with("scope"@, JsonView::Str(retry.scope@)).with(
        "functions"@,
        JsonView::strings(texts(retry.reported_functions@)),
    ).with("model"@, JsonView::Str(used_model(p))).with(
        "provers"@,
        plain_setting(provers, provers),
    ).with(
        "timeout_seconds"@,
        setting(
            JsonView::opt_int(opt_u32(p.timeout)),
            JsonView::opt_int(env_number("FRAMAC_TIMEOUT"@, env.timeout)),
            JsonView::opt_int(opt_u32(s.timeout)),
        ),
    ).with(
        "parallel"@,
        setting(
            JsonView::opt_int(opt_u32(p.par)),
            JsonView::opt_int(env_number("FRAMAC_PAR"@, env.par)),
            JsonView::opt_int(opt_u32(s.par)),
        ),
    ).with("prop"@, plain_setting(prop, prop)).with(
        "smoke"@,
        JsonView::object().with("requested"@, smoke_asked(p)).with(
            "effective"@,
            JsonView::Bool(p.smoke == Some(true)),
        ),
    ).with("rte"@, JsonView::Bool(retry.rte_enabled)).with("split_strategy"@, JsonView::Null)
}

/// The settings of a retry, as they are reported.
pub fn retry_effective_config(
    retry: &IsolatedWpRetry,
    settings: &RetrySettings,
    env: &WpEnvironment,
) -> (r: Json)
    ensures
        r@ == retry_config(*retry, *settings, *env),
{
    let p = retry.params;
    let smoke = match p.smoke {
        Some(b) => Json::Bool(b),
        None => Json::Null,
    };
    let provers = plain_setting_value(Json::strings(&retry.provers), Json::strings(&retry.provers));
    let timeout = setting_value(
        json_opt_u32(p.timeout),
        json_opt_u32(environment_number("FRAMAC_TIMEOUT", &env.timeout)),
        json_opt_u32(settings.timeout),
    );
    let par = setting_value(
        json_opt_u32(p.par),
        json_opt_u32(environment_number("FRAMAC_PAR", &env.par)),
        json_opt_u32(settings.par),
    );
    let prop = plain_setting_value(opt_value_text(&p.prop), opt_value_text(&p.prop));
    Json::object().with("scope", Json::str(retry.scope)).with(
        "functions",
        Json::strings(&retry.reported_functions),
    ).with("model", Json::str(used_model_name(p))).with("provers", provers).with(
        "timeout_seconds",
        timeout,
    ).with("parallel", par).with("prop", prop).with(
        "smoke",
        Json::object().with("requested", smoke).with("effective", Json::Bool(asks_for_smoke(p))),
    ).with("rte", Json::Bool(retry.rte_enabled)).with("split_strategy", Json::Null)
}

/// What a retry answers, given the kind of failure it came to.
pub open spec fn retry_answer(
    retry: IsolatedWpRetry,
    s: RetrySettings,
    env: WpEnvironment,
    state: RetryView,
    failure_kind: Seq<char>,
    read_from: Seq<char>,
) -> JsonView {
    JsonView::object().with("wp_attempts"@, JsonView::Array(state.attempts)).with(
        "effective_wp_config"@,
        retry_config(retry, s, env),
    ).with(
        "frama_c_options"@,
        JsonView::object().with("mode"@, JsonView::Str("isolated-cli-retry"@)).with(
            "files"@,
            JsonView::strings(texts(retry.files@)),
        ).with("smoke"@, JsonView::Bool(retry.params.smoke == Some(true))),
    ).with("wp_timeout_triage"@, first_triage(state.attempts, 0)).with(
        "failure_kind"@,
        JsonView::Str(failure_kind),
    ).with(
        "proofread_report"@,
        report(Seq::empty(), "not_available_for_isolated_cli_retry"@),
    ).with("memory_model_probe"@, retry_probe(state, used_model(*retry.params), read_from))
}

/// What a retry answers, given the kind of failure it came to.
pub fn retry_answer_with(
    retry: &IsolatedWpRetry,
    settings: &RetrySettings,
    env: &WpEnvironment,
    state: RetryState,
    failure_kind: &str,
    read_from: &str,
) -> (r: Json)
    ensures
        r@ == retry_answer(*retry, *settings, *env, state@, failure_kind@, read_from@),
{
    let RetryState { attempts, complete, partial } = state;
    let judged = first_triage_value(&attempts);
    let model = used_model_name(retry.params);
    let probe = match complete {
        Some(hypotheses) => Json::object().with("ran", Json::Bool(true)).with(
            "reason",
            Json::Null,
        ).with("read_from", Json::str(read_from)).with("model", Json::str(model)).with(
            "hypotheses",
            Json::array(hypotheses),
        ),
        None => Json::object().with("ran", Json::Bool(false)).with(
            "reason",
            Json::str(NO_ATTEMPT_SUCCEEDED),
        ).with("read_from", Json::str(read_from)).with("model", Json::str(model)).with(
            "hypotheses",
            Json::array(partial),
        ),
    };
    let none: Vec<Json> = Vec::new();
    assert(models(none@) =~= Seq::empty());
    let options = Json::object().with("mode", Json::str("isolated-cli-retry")).with(
        "files",
        Json::strings(&retry.files),
    ).with("smoke", Json::Bool(asks_for_smoke(retry.params)));
    Json::object().with("wp_attempts", Json::array(attempts)).with(
        "effective_wp_config",
        retry_effective_config(retry, settings, env),
    ).with("frama_c_options", options).with("wp_timeout_triage", judged).with(
        "failure_kind",
        Json::str(failure_kind),
    ).with(
        "proofread_report",
        proofread_report_with_basis(none, "not_available_for_isolated_cli_retry"),
    ).with("memory_model_probe", probe)
}

/// What a retry with one prover at a time answers, before its receipt is added.
pub fn run_isolated_wp_retries(
    retry: &IsolatedWpRetry,
    settings: &RetrySettings,
    env: &WpEnvironment,
    state: RetryState,
    read_from: &str,
) -> (r: Json)
    ensures
        r@ == retry_answer(
            *retry,
            *settings,
            *env,
            state@,
            tasks_failure_kind(
                JsonView::Array(state@.attempts),
                first_triage(state@.attempts, 0),
                json_text(collected(JsonView::Array(state@.attempts))),
            ),
            read_from@,
        ),
{
    let RetryState { attempts, complete, partial } = state;
    let judged = first_triage_value(&attempts);
    let tasks = Json::array(attempts);
    let kind = wp_failure_kind_from_tasks(&tasks, &judged);
    broadcast use crate::json::lemma_array_view;

    let attempts = match tasks {
        Json::Array(v) => v,
        _ => Vec::new(),
    };
    assert(tasks@ == JsonView::Array(models(attempts@)));
    let state = RetryState { attempts, complete, partial };
    retry_answer_with(retry, settings, env, state, kind, read_from)
}

/// What the receipt of a retry holds of the answer.
pub fn retry_reported(response: &Json) -> (r: Json)
    ensures
        r@ == JsonView::object().with(
            "failure_kind"@,
            JsonView::or_null(response@.get("failure_kind"@)),
        ).with("wp_timeout_triage"@, JsonView::or_null(response@.get("wp_timeout_triage"@))).with(
            "wp_attempts"@,
            JsonView::or_null(response@.get("wp_attempts"@)),
        ),
{
    Json::object().with("failure_kind", Json::or_null(response.get("failure_kind"))).with(
        "wp_timeout_triage",
        Json::or_null(response.get("wp_timeout_triage")),
    ).with("wp_attempts", Json::or_null(response.get("wp_attempts")))
}

/// The hypotheses of the first attempt that succeeded are kept whatever comes after it, and a
/// failed attempt never changes what is reported as read completely.
pub proof fn law_a_complete_reading_is_kept(
    s: RetryView,
    attempt: JsonView,
    success: bool,
    reading: Seq<JsonView>,
    merged: Seq<JsonView>,
)
    ensures
        s.complete is Some ==> after_attempt(s, attempt, success, reading, merged).complete
            == s.complete,
        !success ==> after_attempt(s, attempt, success, reading, merged).complete == s.complete,
        after_attempt(s, attempt, success, reading, merged).complete is Some <==> s.complete is Some
            || success,
{
}

// ---------------------------------------------------------------------------
// What holds of the commands and their answers
// ---------------------------------------------------------------------------

/// Each command loads the project first, then says what is wanted of WP: which function, which
/// provers, where to write, and runtime checks exactly where they are wanted.
pub proof fn law_what_the_commands_ask_for(
    options: OptionsView,
    files: Seq<Seq<char>>,
    rte: bool,
    function: Seq<char>,
    provers: Seq<char>,
    out_dir: Seq<char>,
    i: int,
)
    ensures
        0 <= i < cli_args(options).len() ==> project_args(options, files)[i] == cli_args(options)[i],
        0 <= i < files.len() ==> project_args(options, files)[cli_args(options).len() + i]
            == files[i],
        ({
            let n = project_args(options, files).len() as int;
            let a = print_args(options, files, rte, function);
            &&& 0 <= i < n ==> a[i] == project_args(options, files)[i]
            &&& a[n] == "-wp"@ && a[n + 1] == "-wp-print"@
            &&& a[n + 2] == "-wp-prover"@ && a[n + 3] == "none"@
            &&& a[n + 4] == "-wp-fct"@ && a[n + 5] == function
            &&& rte ==> a.len() == n + 7 && a[n + 6] == "-wp-rte"@
            &&& !rte ==> a.len() == n + 6
        }),
        ({
            let n = project_args(options, files).len() as int;
            let a = dump_args(options, files, rte, function, provers, out_dir);
            &&& 0 <= i < n ==> a[i] == project_args(options, files)[i]
            &&& a[n] == "-wp"@ && a[n + 1] == "-wp-gen"@
            &&& a[n + 2] == "-wp-prover"@ && a[n + 3] == provers
            &&& a[n + 4] == "-wp-out"@ && a[n + 5] == out_dir
            &&& a[n + 6] == "-wp-fct"@ && a[n + 7] == function
            &&& rte ==> a.len() == n + 9 && a[n + 8] == "-wp-rte"@
            &&& !rte ==> a.len() == n + 8
        }),
        ({
            let n = project_args(options, files).len() as int;
            let a = counter_args(options, files, rte, function, provers);
            &&& 0 <= i < n ==> a[i] == project_args(options, files)[i]
            &&& a[n] == "-wp"@ && a[n + 1] == "-wp-counter-examples"@
            &&& a[n + 2] == "-wp-prover"@ && a[n + 3] == provers
            &&& a[n + 4] == "-wp-fct"@ && a[n + 5] == function
            &&& rte ==> a.len() == n + 7 && a[n + 6] == "-wp-rte"@
            &&& !rte ==> a.len() == n + 6
        }),
{
}

/// The question for the memory model names the model, every function and the properties that are
/// asked about, and runs no prover.
pub proof fn law_the_memory_model_is_asked_for(
    options: OptionsView,
    files: Seq<Seq<char>>,
    rte: bool,
    model: Seq<char>,
    functions: Seq<Seq<char>>,
    f: Seq<char>,
    prop: Seq<char>,
)
    ensures
        function_args(functions.push(f)) == function_args(functions) + seq!["-wp-fct"@, f],
        function_args(Seq::empty()).len() == 0,
        ({
            let n = project_args(options, files).len() as int;
            let a = model_args(options, files, rte, Some(model), functions, Some(prop));
            &&& a[n] == "-wp"@ && a[n + 1] == "-wp-prover"@ && a[n + 2] == "none"@
            &&& a[n + 3] == "-wp-model"@ && a[n + 4] == model
            &&& rte ==> a[n + 5] == "-wp-rte"@
            &&& a[a.len() - 2] == "-wp-prop"@ && a.last() == prop
            &&& !rte ==> a.len() == n + 7 + function_args(functions).len()
        }),
        ({
            let n = project_args(options, files).len() as int;
            model_args(options, files, false, None, seq![f], None) == project_args(options, files)
                + seq!["-wp"@, "-wp-prover"@, "none"@, "-wp-fct"@, f]
        }),
{
    assert(functions.push(f).drop_last() =~= functions);
    assert(seq![f].drop_last() =~= Seq::empty());
    assert(function_args(seq![f].drop_last()) =~= Seq::empty());
    assert(seq![f].last() == f);
    assert(function_args(seq![f]) =~= seq!["-wp-fct"@, f]);
    assert(model_args(options, files, false, None, seq![f], None) =~= project_args(options, files)
        + seq!["-wp"@, "-wp-prover"@, "none"@, "-wp-fct"@, f]);
}

/// A run that was not there to be read says so, each way in its own words.
pub proof fn law_a_run_that_cannot_be_read_says_so(error: Seq<char>, seconds: int)
    ensures
        no_files().text("status"@) == Some("unavailable"@),
        no_files().text("reason"@) == Some("no source files available"@),
        not_started(error).text("status"@) == Some("error"@),
        not_started(error).text("error"@) == Some(error),
        timed_out(seconds).text("status"@) == Some("timeout"@),
        timed_out(seconds).get("timeout_seconds"@) == Some(JsonView::num(seconds)),
{
    broadcast use crate::json::group_object_reads;

    reveal_strlit("status");
    reveal_strlit("reason");
    reveal_strlit("error");
    reveal_strlit("timeout_seconds");
    assert("status"@.len() == 6 && "reason"@.len() == 6);
    assert("error"@.len() == 5 && "timeout_seconds"@.len() == 15);
    assert("status"@[0] != "reason"@[0]);
}

/// What WP printed is answered with how the run ended, the command, every block, and the warnings
/// of both streams.
pub proof fn law_what_was_printed_is_answered(
    success: bool,
    code: Option<i32>,
    line: Seq<Seq<char>>,
    stdout: Seq<char>,
    stderr: Seq<char>,
)
    ensures
        ({
            let a = printed_answer(success, code, line, stdout, stderr);
            &&& success ==> a.text("status"@) == Some("ok"@)
            &&& !success ==> a.text("status"@) == Some("error"@)
            &&& code is Some ==> a.get("code"@) == Some(JsonView::num(code->0 as int))
            &&& code is None ==> a.get("code"@) == Some(JsonView::Null)
            &&& a.get("command"@) == Some(JsonView::strings(line))
            &&& a.get("block_count"@) == Some(JsonView::num(print_blocks(stdout).len() as int))
            &&& a.get("blocks"@) == Some(JsonView::Array(print_blocks(stdout)))
            &&& a.get("warnings"@) == Some(
                JsonView::strings(
                    warning_lines(crate::text::lines_spec(stdout)) + warning_lines(
                        crate::text::lines_spec(stderr),
                    ),
                ),
            )
            &&& a.text("stderr"@) == Some(trim_spec(stderr))
        }),
{
    broadcast use crate::json::group_object_reads;

    reveal_strlit("status");
    reveal_strlit("code");
    reveal_strlit("command");
    reveal_strlit("block_count");
    reveal_strlit("blocks");
    reveal_strlit("warnings");
    reveal_strlit("stderr");
    assert("status"@.len() == 6 && "code"@.len() == 4);
    assert("command"@.len() == 7 && "block_count"@.len() == 11);
    assert("blocks"@.len() == 6 && "warnings"@.len() == 8);
    assert("stderr"@.len() == 6);
    assert("status"@[0] != "blocks"@[0]);
    assert("status"@[2] != "stderr"@[2]);
    assert("blocks"@[0] != "stderr"@[0]);
}

/// A question for the memory model that could not be put says why.
pub proof fn law_why_the_memory_model_is_not_known(
    files: Seq<Seq<char>>,
    o: CommandOutput,
    error: String,
    seconds: int,
)
    ensures
        files.len() == 0 ==> probe_absence(files, CommandRun::Finished(o), seconds) == Some(
            "no source files available"@,
        ),
        files.len() > 0 ==> probe_absence(files, CommandRun::Finished(o), seconds) is None,
        files.len() > 0 ==> probe_absence(files, CommandRun::NotStarted(error), seconds) == Some(
            "frama-c could not be started: "@ + error@,
        ),
        files.len() > 0 ==> probe_absence(files, CommandRun::TimedOut, seconds) == Some(
            "the memory-model probe exceeded "@ + decimal(seconds as nat) + " seconds"@,
        ),
{
}

/// The answer on the memory model says whether it ran, of what it was read, for which model, and
/// what is assumed; where it failed, why, and what was printed, up to 4096 bytes of each stream.
pub proof fn law_the_memory_model_is_answered(
    read_from: Seq<char>,
    model: Option<Seq<char>>,
    line: Seq<Seq<char>>,
    o: CommandOutput,
    hypotheses: Seq<JsonView>,
)
    ensures
        ({
            let a = model_answer(read_from, model, line, o, hypotheses);
            &&& a.flag("ran"@) == Some(o.success)
            &&& a.text("read_from"@) == Some(read_from)
            &&& a.get("model"@) == Some(JsonView::opt_text(model))
            &&& a.get("command"@) == Some(JsonView::strings(line))
            &&& a.get("hypotheses"@) == Some(JsonView::Array(hypotheses))
            &&& a.get("exit_code"@) == Some(exit_code(o.code))
            &&& o.success ==> a.get("reason"@) is None
            &&& !o.success && o.code is None ==> a.text("reason"@) == Some(
                "frama-c exited "@ + "on a signal"@ + " during the memory-model probe"@,
            )
            &&& !o.success && o.code is Some ==> a.text("reason"@) == Some(
                "frama-c exited "@ + int_decimal(o.code->0 as int)
                    + " during the memory-model probe"@,
            )
            &&& !o.success ==> a.flag("stdout_truncated"@) == Some(o.stdout@.len() > 4096)
                && a.flag("stderr_truncated"@) == Some(o.stderr@.len() > 4096)
            &&& !o.success && o.stdout@.len() <= 4096 ==> a.text("stdout"@) == Some(
                trim_spec(utf8_lossy(o.stdout@)),
            )
            &&& !o.success && o.stderr@.len() <= 4096 ==> a.text("stderr"@) == Some(
                trim_spec(utf8_lossy(o.stderr@)),
            )
        }),
{
    broadcast use crate::json::group_object_reads;

    reveal_strlit("ran");
    reveal_strlit("read_from");
    reveal_strlit("model");
    reveal_strlit("command");
    reveal_strlit("exit_code");
    reveal_strlit("hypotheses");
    reveal_strlit("reason");
    reveal_strlit("stdout");
    reveal_strlit("stdout_truncated");
    reveal_strlit("stderr");
    reveal_strlit("stderr_truncated");
    assert("ran"@.len() == 3 && "read_from"@.len() == 9);
    assert("model"@.len() == 5 && "command"@.len() == 7);
    assert("exit_code"@.len() == 9 && "hypotheses"@.len() == 10);
    assert("reason"@.len() == 6 && "stdout"@.len() == 6);
    assert("stdout_truncated"@.len() == 16 && "stderr"@.len() == 6);
    assert("stderr_truncated"@.len() == 16);
    assert("read_from"@[0] != "exit_code"@[0]);
    assert("reason"@[0] != "stdout"@[0]);
    assert("reason"@[0] != "stderr"@[0]);
    assert("stdout"@[3] != "stderr"@[3]);
    assert("stdout_truncated"@[3] != "stderr_truncated"@[3]);
    if o.stdout@.len() <= 4096 {
        assert(first_bytes(o.stdout@, 4096) =~= o.stdout@);
    }
    if o.stderr@.len() <= 4096 {
        assert(first_bytes(o.stderr@, 4096) =~= o.stderr@);
    }
}

/// A dump is answered with its files, how many were left out, and where they were written; a run
/// that succeeds and writes none is told apart from one that fails.
pub proof fn law_a_dump_is_answered(
    d: Why3Dump,
    success: bool,
    code: Option<i32>,
    dumps: Seq<JsonView>,
    omitted: int,
    stdout: Seq<char>,
    stderr: Seq<char>,
)
    ensures
        ({
            let a = dump_answer(d, success, code, dumps, omitted, stdout, stderr);
            &&& !success ==> a.text("status"@) == Some("error"@)
            &&& success && dumps.len() == 0 ==> a.text("status"@) == Some("not_found"@)
            &&& success && dumps.len() > 0 ==> a.text("status"@) == Some("ok"@)
            &&& a.get("code"@) == Some(exit_code(code))
            &&& a.text("wp_out"@) == Some(d.out_dir@)
            &&& a.get("file_count"@) == Some(JsonView::num(dumps.len() as int))
            &&& a.get("files_omitted"@) == Some(JsonView::num(omitted))
            &&& a.get("files"@) == Some(JsonView::Array(dumps))
            &&& a.text("stdout"@) == Some(trim_spec(stdout))
            &&& a.text("stderr"@) == Some(trim_spec(stderr))
        }),
{
    broadcast use crate::json::group_object_reads;

    reveal_strlit("status");
    reveal_strlit("code");
    reveal_strlit("wp_out");
    reveal_strlit("command");
    reveal_strlit("file_count");
    reveal_strlit("files_omitted");
    reveal_strlit("files");
    reveal_strlit("stdout");
    reveal_strlit("stderr");
    assert("status"@.len() == 6 && "code"@.len() == 4);
    assert("wp_out"@.len() == 6 && "command"@.len() == 7);
    assert("file_count"@.len() == 10 && "files_omitted"@.len() == 13);
    assert("files"@.len() == 5 && "stdout"@.len() == 6);
    assert("stderr"@.len() == 6);
    assert("status"@[0] != "wp_out"@[0]);
    assert("status"@[2] != "stdout"@[2]);
    assert("status"@[2] != "stderr"@[2]);
    assert("wp_out"@[0] != "stdout"@[0]);
    assert("wp_out"@[0] != "stderr"@[0]);
    assert("stdout"@[3] != "stderr"@[3]);
}

/// A run for counterexamples is answered with what it printed, up to 262144 bytes of each stream,
/// and says whether that is all; a run that did not end has no output to show.
pub proof fn law_counterexamples_are_answered(
    files: Seq<Seq<char>>,
    line: Seq<Seq<char>>,
    o: CommandOutput,
    error: String,
    seconds: int,
)
    requires
        files.len() > 0,
    ensures
        ({
            let a = counter_answer(files, line, CommandRun::Finished(o), seconds);
            &&& o.success ==> a.text("status"@) == Some("ok"@)
            &&& !o.success ==> a.text("status"@) == Some("error"@)
            &&& a.get("code"@) == Some(exit_code(o.code))
            &&& a.get("command"@) == Some(JsonView::strings(line))
            &&& a.flag("truncated"@) == Some(o.stdout@.len() > 262144 || o.stderr@.len() > 262144)
            &&& o.stdout@.len() <= 262144 ==> a.text("raw_stdout"@) == Some(utf8_lossy(o.stdout@))
            &&& o.stderr@.len() <= 262144 ==> a.text("raw_stderr"@) == Some(utf8_lossy(o.stderr@))
        }),
        ({
            let a = counter_answer(files, line, CommandRun::TimedOut, seconds);
            &&& a.text("status"@) == Some("timeout"@)
            &&& a.get("timeout_seconds"@) == Some(JsonView::num(seconds))
            &&& a.get("command"@) == Some(JsonView::strings(line))
            &&& a.get("raw_stdout"@) == Some(JsonView::Null)
            &&& a.flag("truncated"@) == Some(false)
        }),
        ({
            let a = counter_answer(files, line, CommandRun::NotStarted(error), seconds);
            &&& a.text("status"@) == Some("error"@)
            &&& a.text("error"@) == Some(error@)
            &&& a.get("command"@) == Some(JsonView::strings(line))
        }),
        counter_answer(Seq::empty(), line, CommandRun::Finished(o), seconds).text("status"@) == Some(
            "unavailable"@,
        ),
{
    broadcast use crate::json::group_object_reads;

    reveal_strlit("status");
    reveal_strlit("code");
    reveal_strlit("command");
    reveal_strlit("raw_stdout");
    reveal_strlit("raw_stderr");
    reveal_strlit("truncated");
    reveal_strlit("timeout_seconds");
    reveal_strlit("error");
    reveal_strlit("reason");
    assert("status"@.len() == 6 && "code"@.len() == 4);
    assert("command"@.len() == 7 && "raw_stdout"@.len() == 10);
    assert("raw_stderr"@.len() == 10 && "truncated"@.len() == 9);
    assert("timeout_seconds"@.len() == 15 && "error"@.len() == 5);
    assert("reason"@.len() == 6);
    assert("status"@[0] != "reason"@[0]);
    assert("raw_stdout"@[7] != "raw_stderr"@[7]);
    if o.stdout@.len() <= 262144 {
        assert(first_bytes(o.stdout@, 262144) =~= o.stdout@);
    }
    if o.stderr@.len() <= 262144 {
        assert(first_bytes(o.stderr@, 262144) =~= o.stderr@);
    }
}

/// A retry names its prover and its model, then runtime checks, timeout, parallelism, properties and
/// smoke tests where they are wanted, the cache, and the functions where there are any.
pub proof fn law_what_a_retry_asks_for(retry: IsolatedWpRetry, s: RetrySettings, prover: Seq<char>)
    ensures
        ({
            let n = project_args(retry.project_options@, texts(retry.files@)).len() as int;
            let a = retry_args(retry, s, prover);
            &&& a[n] == "-wp"@ && a[n + 1] == "-wp-prover"@ && a[n + 2] == prover
            &&& a[n + 3] == "-wp-model"@
            &&& retry.params.model is Some ==> a[n + 4] == retry.params.model->0@
            &&& retry.params.model is None ==> a[n + 4] == "Typed+nocast"@
            &&& retry.rte_enabled ==> a[n + 5] == "-wp-rte"@
            &&& !retry.rte_enabled && s.timeout is Some ==> a[n + 5] == "-wp-timeout"@ && a[n + 6]
                == decimal(s.timeout->0 as nat)
            &&& !retry.rte_enabled && s.timeout is None && s.par is Some ==> a[n + 5]
                == "-wp-par"@ && a[n + 6] == decimal(s.par->0 as nat)
            &&& !retry.rte_enabled && s.timeout is None && s.par is None && retry.params.prop is Some
                ==> a[n + 5] == "-wp-prop"@ && a[n + 6] == retry.params.prop->0@
            &&& !retry.rte_enabled && s.timeout is None && s.par is None && retry.params.prop is None
                && retry.params.smoke == Some(true) ==> a[n + 5] == "-wp-smoke-tests"@
            &&& retry.functions@.len() == 0 ==> a[a.len() - 2] == "-wp-cache"@ && a.last()
                == s.cache@
            &&& retry.functions@.len() > 0 ==> a[a.len() - 2] == "-wp-fct"@ && a.last()
                == join_spec(texts(retry.functions@), ","@) && a[a.len() - 4] == "-wp-cache"@ && a[
                a.len() - 3] == s.cache@
        }),
{
}

/// An attempt that was not waited for is told as such; one that ended tells its code and the goals
/// it counted, and is called a timeout where its output speaks of one.
pub proof fn law_an_attempt_is_told(
    prover: Seq<char>,
    timeout: Option<u32>,
    success: bool,
    code: Option<i32>,
    printed: Seq<char>,
)
    ensures
        ({
            let a = attempt_timed_out(prover, timeout);
            &&& a.text("prover"@) == Some(prover)
            &&& a.flag("success"@) == Some(false)
            &&& a.get("exit_code"@) == Some(JsonView::Null)
            &&& a.at("wp_timeout_triage"@, "kind"@) == Some(JsonView::Str("mcp_server_timeout"@))
        }),
        ({
            let a = attempt_ended(prover, timeout, success, code, printed);
            &&& a.text("prover"@) == Some(prover)
            &&& a.flag("success"@) == Some(success)
            &&& a.get("exit_code"@) == Some(exit_code(code))
            &&& a.get("proved_goals"@) == Some(
                JsonView::opt_int(proved_lines(crate::text::lines_spec(printed)).0),
            )
            &&& a.get("total_goals"@) == Some(
                JsonView::opt_int(proved_lines(crate::text::lines_spec(printed)).1),
            )
            &&& a.get("timeout_seconds"@) == Some(JsonView::opt_int(opt_u32(timeout)))
            &&& occurs(ascii_lower(printed), "timeout"@) ==> a.at("wp_timeout_triage"@, "kind"@)
                == Some(JsonView::Str("prover_timeout"@))
            &&& !occurs(ascii_lower(printed), "timeout"@) ==> a.at("wp_timeout_triage"@, "kind"@)
                == Some(JsonView::Str("none"@))
        }),
{
    broadcast use crate::json::group_object_reads;

    reveal_strlit("prover");
    reveal_strlit("success");
    reveal_strlit("exit_code");
    reveal_strlit("proved_goals");
    reveal_strlit("total_goals");
    reveal_strlit("timeout_seconds");
    reveal_strlit("wp_timeout_triage");
    assert("prover"@.len() == 6 && "success"@.len() == 7);
    assert("exit_code"@.len() == 9 && "proved_goals"@.len() == 12);
    assert("total_goals"@.len() == 11 && "timeout_seconds"@.len() == 15);
    assert("wp_timeout_triage"@.len() == 17);
    reveal_strlit("kind");
    reveal_strlit("retry_with_higher_prover_timeout");
    reveal_strlit("confidence");
    reveal_strlit("reason");
    reveal_strlit("evidence");
    assert("kind"@.len() == 4 && "retry_with_higher_prover_timeout"@.len() == 32);
    assert("confidence"@.len() == 10 && "reason"@.len() == 6);
    assert("evidence"@.len() == 8);
}

proof fn lemma_first_triage(attempts: Seq<JsonView>, i: int, k: int)
    requires
        0 <= i <= k < attempts.len(),
        attempts[k].get("wp_timeout_triage"@) is Some,
        attempts[k].get("wp_timeout_triage"@)->0.text("kind"@) != Some("none"@),
        forall|j: int|
            i <= j < k ==> (#[trigger] attempts[j]).get("wp_timeout_triage"@) is None || attempts[j].get(
                "wp_timeout_triage"@,
            )->0.text("kind"@) == Some("none"@),
    ensures
        first_triage(attempts, i) == attempts[k].get("wp_timeout_triage"@)->0,
    decreases k - i,
{
    if i < k {
        lemma_first_triage(attempts, i + 1, k);
    }
}

/// The first attempt that ran out of time speaks for all of them.
pub proof fn law_the_first_timeout_speaks_for_the_attempts(attempts: Seq<JsonView>, k: int)
    requires
        0 <= k < attempts.len(),
        attempts[k].get("wp_timeout_triage"@) is Some,
        attempts[k].get("wp_timeout_triage"@)->0.text("kind"@) != Some("none"@),
        forall|j: int|
            0 <= j < k ==> (#[trigger] attempts[j]).get("wp_timeout_triage"@) is None || attempts[j].get(
                "wp_timeout_triage"@,
            )->0.text("kind"@) == Some("none"@),
    ensures
        first_triage(attempts, 0) == attempts[k].get("wp_timeout_triage"@)->0,
{
    lemma_first_triage(attempts, 0, k);
}

/// An attempt is recorded last; what was read of the first that succeeded is what counts, and what
/// was read of failures counts only where none did.
pub proof fn law_what_a_retry_has_read(
    s: RetryView,
    attempt: JsonView,
    reading: Seq<JsonView>,
    merged: Seq<JsonView>,
    model: Seq<char>,
    read_from: Seq<char>,
    success: bool,
)
    ensures
        after_attempt(s, attempt, success, reading, merged).attempts == s.attempts.push(attempt),
        s.complete is None ==> after_attempt(s, attempt, true, reading, merged).complete == Some(
            reading,
        ),
        after_attempt(s, attempt, false, reading, merged).partial == merged,
        s.complete is Some ==> retry_probe(s, model, read_from).flag("ran"@) == Some(true)
            && retry_probe(s, model, read_from).get("hypotheses"@) == Some(
            JsonView::Array(s.complete->0),
        ) && retry_probe(s, model, read_from).get("reason"@) == Some(JsonView::Null),
        s.complete is None ==> retry_probe(s, model, read_from).flag("ran"@) == Some(false)
            && retry_probe(s, model, read_from).get("hypotheses"@) == Some(
            JsonView::Array(s.partial),
        ) && retry_probe(s, model, read_from).text("reason"@) == Some(
            "no isolated Frama-C attempt completed successfully; see wp_attempts for exit_code"@,
        ),
        retry_probe(s, model, read_from).text("model"@) == Some(model),
        retry_probe(s, model, read_from).text("read_from"@) == Some(read_from),
{
    broadcast use crate::json::group_object_reads;

    reveal_strlit("ran");
    reveal_strlit("reason");
    reveal_strlit("read_from");
    reveal_strlit("model");
    reveal_strlit("hypotheses");
    assert("ran"@.len() == 3 && "reason"@.len() == 6);
    assert("read_from"@.len() == 9 && "model"@.len() == 5);
    assert("hypotheses"@.len() == 10);
}

/// The answer to a retry holds every attempt, the settings, what is made of timeouts, the kind of
/// failure and what was read of the memory model.
pub proof fn law_a_retry_is_answered(
    retry: IsolatedWpRetry,
    s: RetrySettings,
    env: WpEnvironment,
    state: RetryView,
    kind: Seq<char>,
    read_from: Seq<char>,
)
    ensures
        ({
            let a = retry_answer(retry, s, env, state, kind, read_from);
            &&& a.get("wp_attempts"@) == Some(JsonView::Array(state.attempts))
            &&& a.get("effective_wp_config"@) == Some(retry_config(retry, s, env))
            &&& a.get("wp_timeout_triage"@) == Some(first_triage(state.attempts, 0))
            &&& a.text("failure_kind"@) == Some(kind)
            &&& a.at("frama_c_options"@, "mode"@) == Some(JsonView::Str("isolated-cli-retry"@))
            &&& a.at("frama_c_options"@, "files"@) == Some(
                JsonView::strings(texts(retry.files@)),
            )
            &&& a.at("frama_c_options"@, "smoke"@) == Some(
                JsonView::Bool(retry.params.smoke == Some(true)),
            )
            &&& a.get("memory_model_probe"@) == Some(
                retry_probe(state, used_model(*retry.params), read_from),
            )
        }),
        ({
            let c = retry_config(retry, s, env);
            &&& c.text("scope"@) == Some(retry.scope@)
            &&& c.get("functions"@) == Some(JsonView::strings(texts(retry.reported_functions@)))
            &&& c.flag("rte"@) == Some(retry.rte_enabled)
            &&& c.at("timeout_seconds"@, "effective"@) == Some(
                JsonView::opt_int(opt_u32(s.timeout)),
            )
            &&& c.at("timeout_seconds"@, "requested"@) == Some(
                JsonView::opt_int(opt_u32(retry.params.timeout)),
            )
            &&& c.at("parallel"@, "effective"@) == Some(JsonView::opt_int(opt_u32(s.par)))
            &&& c.at("provers"@, "effective"@) == Some(
                JsonView::strings(texts(retry.provers@)),
            )
            &&& c.at("smoke"@, "effective"@) == Some(
                JsonView::Bool(retry.params.smoke == Some(true)),
            )
        }),
{
    broadcast use crate::json::group_object_reads;

    reveal_strlit("wp_attempts");
    reveal_strlit("effective_wp_config");
    reveal_strlit("frama_c_options");
    reveal_strlit("wp_timeout_triage");
    reveal_strlit("failure_kind");
    reveal_strlit("proofread_report");
    reveal_strlit("memory_model_probe");
    assert("wp_attempts"@.len() == 11 && "effective_wp_config"@.len() == 19);
    assert("frama_c_options"@.len() == 15 && "wp_timeout_triage"@.len() == 17);
    assert("failure_kind"@.len() == 12 && "proofread_report"@.len() == 16);
    assert("memory_model_probe"@.len() == 18);
    reveal_strlit("mode");
    reveal_strlit("files");
    reveal_strlit("smoke");
    assert("mode"@.len() == 4 && "files"@.len() == 5);
    assert("smoke"@.len() == 5);
    assert("files"@[0] != "smoke"@[0]);
    reveal_strlit("scope");
    reveal_strlit("functions");
    reveal_strlit("model");
    reveal_strlit("provers");
    reveal_strlit("timeout_seconds");
    reveal_strlit("parallel");
    reveal_strlit("prop");
    reveal_strlit("smoke");
    reveal_strlit("rte");
    reveal_strlit("split_strategy");
    assert("scope"@.len() == 5 && "functions"@.len() == 9);
    assert("model"@.len() == 5 && "provers"@.len() == 7);
    assert("timeout_seconds"@.len() == 15 && "parallel"@.len() == 8);
    assert("prop"@.len() == 4 && "smoke"@.len() == 5);
    assert("rte"@.len() == 3 && "split_strategy"@.len() == 14);
    assert("scope"@[0] != "model"@[0]);
    assert("scope"@[1] != "smoke"@[1]);
    assert("model"@[0] != "smoke"@[0]);
    reveal_strlit("requested");
    reveal_strlit("env_default");
    reveal_strlit("effective");
    reveal_strlit("effective_known");
    assert("requested"@.len() == 9 && "env_default"@.len() == 11);
    assert("effective"@.len() == 9 && "effective_known"@.len() == 15);
    assert("requested"@[0] != "effective"@[0]);
}

} // verus!
