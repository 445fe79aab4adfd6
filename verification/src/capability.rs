//! What the server can do, by what a self check found.

use crate::advice::COVERAGE_WARNING;
use crate::json::{lemma_models_push, lemma_take_next, models, Json, JsonView};
use crate::session::{frama_c_version_limitations, version_limitations};
use crate::text::{owned, pieces, same, split_char, texts};
use crate::wpconfig::{default_wp_provers, installed_provers};
use crate::wpmodel::{common, WpModelSupport};
use crate::wpout::runtime_check_coverage_warning;
use vstd::prelude::*;

verus! {

/// How many tools the server offers.
pub const MCP_TOOL_COUNT: usize = 14;

/// Whether a field holds a text.
pub open spec fn says(v: JsonView, key: Seq<char>, text: Seq<char>) -> bool {
    v.text(key) == Some(text)
}

fn field_says(v: &Json, key: &str, text: &str) -> (r: bool)
    ensures
        r == says(v@, key@, text@),
{
    match v.text(key) {
        Some(s) => same(s, text),
        None => false,
    }
}

/// The values under a key, none where there is no list.
pub open spec fn list_under(v: JsonView, key: Seq<char>) -> Seq<JsonView> {
    match v.list(key) {
        Some(l) => l,
        None => Seq::empty(),
    }
}

/// The reports on the requests of one domain among some.
pub open spec fn of_domain(s: Seq<JsonView>, domain: Seq<char>) -> Seq<JsonView>
    decreases s.len(),
{
    if s.len() == 0 {
        Seq::empty()
    } else if says(s.last(), "domain"@, domain) {
        of_domain(s.drop_last(), domain).push(s.last())
    } else {
        of_domain(s.drop_last(), domain)
    }
}

/// The reports on the requests of one domain that a self check made.
pub open spec fn domain_reports(payload: JsonView, domain: Seq<char>) -> Seq<JsonView> {
    of_domain(list_under(payload, "required_requests"@), domain)
}

/// The reports on the requests of one domain that a self check made.
pub fn domain_requests(payload: &Json, domain: &str) -> (r: Vec<Json>)
    ensures
        models(r@) == domain_reports(payload@, domain@),
{
    let mut out: Vec<Json> = Vec::new();
    assert(models(out@) =~= Seq::empty());
    let list = match payload.list("required_requests") {
        Some(l) => l,
        None => {
            return out;
        },
    };
    let ghost all = models(list@);
    let mut i: usize = 0;
    assert(all.subrange(0, 0) =~= Seq::empty());
    while i < list.len()
        invariant
            i <= list@.len(),
            all == models(list@),
            models(out@) == of_domain(all.subrange(0, i as int), domain@),
        decreases list@.len() - i,
    {
        proof {
            lemma_take_next(all, i as int);
            assert(all[i as int] == list@[i as int]@);
        }
        if field_says(&list[i], "domain", domain) {
            let c = list[i].copy();
            proof {
                lemma_models_push(out@, c);
            }
            out.push(c);
        }
        i = i + 1;
    }
    assert(all.subrange(0, i as int) =~= all);
    out
}

/// Whether there are requests, and all of them answer.
pub open spec fn all_present(requests: Seq<JsonView>) -> bool {
    requests.len() > 0 && forall|i: int|
        0 <= i < requests.len() ==> says(#[trigger] requests[i], "status"@, "present"@)
}

/// Whether there are requests, and all of them answer.
pub fn requests_available(requests: &Vec<Json>) -> (r: bool)
    ensures
        r == all_present(models(requests@)),
{
    let ghost all = models(requests@);
    assert(all.len() == requests@.len());
    if requests.len() == 0 {
        return false;
    }
    let mut i: usize = 0;
    while i < requests.len()
        invariant
            i <= requests@.len(),
            all == models(requests@),
            forall|k: int| 0 <= k < i ==> says(#[trigger] all[k], "status"@, "present"@),
        decreases requests@.len() - i,
    {
        assert(all[i as int] == requests@[i as int]@);
        if !field_says(&requests[i], "status", "present") {
            assert(!says(all[i as int], "status"@, "present"@));
            return false;
        }
        i = i + 1;
    }
    true
}

/// The tools that are installed, by the reports on them.
pub open spec fn found_tools(entries: Seq<JsonView>) -> Seq<Seq<char>>
    decreases entries.len(),
{
    if entries.len() == 0 {
        Seq::empty()
    } else if says(entries.last(), "status"@, "found"@) && entries.last().text("tool"@) is Some {
        found_tools(entries.drop_last()).push(entries.last().text("tool"@)->0)
    } else {
        found_tools(entries.drop_last())
    }
}

/// Whether some tool is usable. One that is installed need not be.
pub open spec fn some_usable(entries: Seq<JsonView>) -> bool {
    exists|i: int| 0 <= i < entries.len() && (#[trigger] entries[i]).flag("usable"@) == Some(true)
}

fn tools_found(entries: &Vec<Json>) -> (r: Vec<String>)
    ensures
        texts(r@) == found_tools(models(entries@)),
{
    let ghost all = models(entries@);
    let mut out: Vec<String> = Vec::new();
    let mut i: usize = 0;
    assert(all.subrange(0, 0) =~= Seq::empty());
    assert(texts(out@) =~= Seq::empty());
    while i < entries.len()
        invariant
            i <= entries@.len(),
            all == models(entries@),
            texts(out@) == found_tools(all.subrange(0, i as int)),
        decreases entries@.len() - i,
    {
        proof {
            lemma_take_next(all, i as int);
            assert(all[i as int] == entries@[i as int]@);
        }
        if field_says(&entries[i], "status", "found") {
            match entries[i].text("tool") {
                Some(t) => {
                    let ghost before = out@;
                    let o = owned(t);
                    out.push(o);
                    assert(texts(out@) =~= texts(before).push(o@));
                },
                None => {},
            }
        }
        i = i + 1;
    }
    assert(all.subrange(0, i as int) =~= all);
    out
}

fn any_usable(entries: &Vec<Json>) -> (r: bool)
    ensures
        r == some_usable(models(entries@)),
{
    let ghost all = models(entries@);
    let mut i: usize = 0;
    while i < entries.len()
        invariant
            i <= entries@.len(),
            all == models(entries@),
            forall|k: int| 0 <= k < i ==> (#[trigger] all[k]).flag("usable"@) != Some(true),
        decreases entries@.len() - i,
    {
        assert(all[i as int] == entries@[i as int]@);
        match entries[i].flag("usable") {
            Some(b) => {
                if b {
                    assert(some_usable(all));
                    return true;
                }
            },
            None => {},
        }
        i = i + 1;
    }
    assert(all.len() == entries@.len());
    false
}

/// What stands under two keys.
pub open spec fn inner(v: JsonView, key: Seq<char>, under: Seq<char>) -> JsonView {
    JsonView::or_null(v.at(key, under))
}

/// What stands under a key.
pub open spec fn outer(v: JsonView, key: Seq<char>) -> JsonView {
    JsonView::or_null(v.get(key))
}

/// A workflow, and whether it can be followed.
pub open spec fn workflow(name: Seq<char>, available: bool) -> JsonView {
    JsonView::object().with("name"@, JsonView::Str(name)).with(
        "available"@,
        JsonView::Bool(available),
    )
}

fn workflow_entry(name: &str, available: bool) -> (r: Json)
    ensures
        r@ == workflow(name@, available),
{
    Json::object().with("name", Json::str(name)).with("available", Json::Bool(available))
}

/// What the server is: its version, and the revisions of the protocol that it speaks.
pub struct ServerIdentity {
    pub version: String,
    pub protocol_version: String,
    pub supported_protocol_versions: Vec<String>,
}

/// The memory models, as they are reported.
pub open spec fn memory_model(support: WpModelSupport) -> JsonView {
    JsonView::object().with("default"@, JsonView::Str("Typed+nocast"@)).with(
        "supported"@,
        JsonView::strings(common(support@)),
    ).with("bases"@, JsonView::strings(texts(support.bases@))).with(
        "modifiers"@,
        JsonView::strings(texts(support.modifiers@)),
    ).with("source"@, JsonView::Str(support.source@))
}

/// What the server can do, by what a self check found.
pub open spec fn capabilities(
    check: JsonView,
    server: ServerIdentity,
    support: WpModelSupport,
    cvc5: bool,
    z3: bool,
) -> JsonView {
    let probe = inner(check, "e_acsl"@, "tools"@);
    let tools = match probe.as_list() {
        Some(l) => l,
        None => Seq::empty(),
    };
    let plugin = list_under(check, "ast_utils_registered_requests"@);
    let ast = domain_reports(check, "ast-utils"@);
    let eva = domain_reports(check, "eva"@);
    let wp = domain_reports(check, "wp"@);
    JsonView::object().with(
        "server"@,
        JsonView::object().with("version"@, JsonView::Str(server.version@)).with(
            "tool_count"@,
            JsonView::num(MCP_TOOL_COUNT as int),
        ).with("protocol_version"@, JsonView::Str(server.protocol_version@)).with(
            "supported_protocol_versions"@,
            JsonView::strings(texts(server.supported_protocol_versions@)),
        ),
    ).with("processes"@, outer(check, "processes"@)).with("frama_c"@, outer(check, "frama_c"@)).with(
        "ast_utils"@,
        JsonView::object().with("plugin"@, JsonView::Str("ast_utils_plugin"@)).with(
            "status"@,
            inner(check, "ast_utils"@, "status"@),
        ).with("registered_request_count"@, JsonView::num(plugin.len() as int)).with(
            "registered_requests"@,
            JsonView::Array(plugin),
        ).with("install_hint"@, inner(check, "ast_utils"@, "install_hint"@)),
    ).with(
        "eva"@,
        JsonView::object().with("available"@, JsonView::Bool(all_present(eva))).with(
            "requests"@,
            JsonView::Array(eva),
        ),
    ).with(
        "wp"@,
        JsonView::object().with("available"@, JsonView::Bool(all_present(wp))).with(
            "memory_model"@,
            memory_model(support),
        ).with(
            "default_provers"@,
            JsonView::strings(pieces(installed_provers(cvc5, z3), ',')),
        ).with("default_timeout_seconds"@, JsonView::Null).with(
            "timeout_source"@,
            JsonView::Str("Frama-C/WP current setting unless run_wp passes timeout"@),
        ).with("requests"@, JsonView::Array(wp)),
    ).with(
        "e_acsl"@,
        JsonView::object().with("available"@, JsonView::Bool(some_usable(tools))).with(
            "tools"@,
            JsonView::strings(found_tools(tools)),
        ).with("execution"@, JsonView::Str("run_e_acsl"@)).with("tool_probe"@, probe).with(
            "coverage_warning"@,
            JsonView::Str(COVERAGE_WARNING@),
        ),
    ).with(
        "supported_workflows"@,
        JsonView::Array(
            seq![
                workflow("load_project_then_eva"@, all_present(eva)),
                workflow("sandbox_cegis_then_merge"@, all_present(ast)),
                workflow("wp_main_or_sandbox"@, all_present(wp) && all_present(ast)),
            ],
        ),
    ).with(
        "known_frama_c_version_limitations"@,
        JsonView::strings(version_limitations(outer(check, "frama_c"@))),
    ).with(
        "self_check"@,
        JsonView::object().with(
            "temp_dir_writeability"@,
            outer(check, "temp_dir_writeability"@),
        ).with("socket_spawn"@, outer(check, "socket_spawn"@)).with("why3"@, outer(check, "why3"@)),
    )
}

fn copy_outer(v: &Json, key: &str) -> (r: Json)
    ensures
        r@ == outer(v@, key@),
{
    Json::or_null(v.get(key))
}

fn copy_inner(v: &Json, key: &str, under: &str) -> (r: Json)
    ensures
        r@ == inner(v@, key@, under@),
{
    Json::or_null(v.at(key, under))
}

fn copy_list(v: &Json, key: &str) -> (r: Vec<Json>)
    ensures
        models(r@) == list_under(v@, key@),
{
    let mut out: Vec<Json> = Vec::new();
    match v.list(key) {
        Some(list) => {
            let ghost all = models(list@);
            let mut i: usize = 0;
            while i < list.len()
                invariant
                    i <= list@.len(),
                    all == models(list@),
                    out@.len() == i,
                    forall|k: int| 0 <= k < i ==> (#[trigger] out@[k])@ == all[k],
                decreases list@.len() - i,
            {
                assert(all[i as int] == list@[i as int]@);
                out.push(list[i].copy());
                i = i + 1;
            }
            assert(models(out@) =~= all);
        },
        None => {
            assert(models(out@) =~= Seq::empty());
        },
    }
    out
}

fn memory_model_payload(support: &WpModelSupport) -> (r: Json)
    ensures
        r@ == memory_model(*support),
{
    let supported = support.common_models();
    Json::object().with("default", Json::str(crate::wpmodel::default_wp_model())).with(
        "supported",
        Json::strings(&supported),
    ).with("bases", Json::strings(&support.bases)).with(
        "modifiers",
        Json::strings(&support.modifiers),
    ).with("source", Json::str(support.source))
}

/// What the server can do, by what a self check found.
pub fn capabilities_payload(
    self_check: &Json,
    server: &ServerIdentity,
    wp_model_support: &WpModelSupport,
    cvc5: bool,
    z3: bool,
) -> (r: Json)
    ensures
        r@ == capabilities(self_check@, *server, *wp_model_support, cvc5, z3),
{
    let probe = copy_inner(self_check, "e_acsl", "tools");
    let none: Vec<Json> = Vec::new();
    assert(models(none@) =~= Seq::empty());
    let entries = match probe.as_list() {
        Some(l) => l,
        None => &none,
    };
    let tools = tools_found(entries);
    let usable = any_usable(entries);
    let plugin = copy_list(self_check, "ast_utils_registered_requests");
    let ast = domain_requests(self_check, "ast-utils");
    let eva = domain_requests(self_check, "eva");
    let wp = domain_requests(self_check, "wp");
    let ast_available = requests_available(&ast);
    let eva_available = requests_available(&eva);
    let wp_available = requests_available(&wp);
    let plugin_count: usize = plugin.len();
    assert(models(plugin@).len() == plugin_count);
    let provers = split_char(default_wp_provers(cvc5, z3).as_str(), ',');
    let limitations = match self_check.get("frama_c") {
        Some(v) => frama_c_version_limitations(v),
        None => frama_c_version_limitations(&Json::Null),
    };

    let identity = Json::object().with("version", Json::str(server.version.as_str())).with(
        "tool_count",
        Json::num(MCP_TOOL_COUNT as u64),
    ).with("protocol_version", Json::str(server.protocol_version.as_str())).with(
        "supported_protocol_versions",
        Json::strings(&server.supported_protocol_versions),
    );
    let ast_utils = Json::object().with("plugin", Json::str("ast_utils_plugin")).with(
        "status",
        copy_inner(self_check, "ast_utils", "status"),
    ).with("registered_request_count", Json::num(plugin_count as u64)).with(
        "registered_requests",
        Json::array(plugin),
    ).with("install_hint", copy_inner(self_check, "ast_utils", "install_hint"));
    let eva_part = Json::object().with("available", Json::Bool(eva_available)).with(
        "requests",
        Json::array(eva),
    );
    let wp_part = Json::object().with("available", Json::Bool(wp_available)).with(
        "memory_model",
        memory_model_payload(wp_model_support),
    ).with("default_provers", Json::strings(&provers)).with(
        "default_timeout_seconds",
        Json::Null,
    ).with(
        "timeout_source",
        Json::str("Frama-C/WP current setting unless run_wp passes timeout"),
    ).with("requests", Json::array(wp));
    let e_acsl = Json::object().with("available", Json::Bool(usable)).with(
        "tools",
        Json::strings(&tools),
    ).with("execution", Json::str("run_e_acsl")).with("tool_probe", probe.copy()).with(
        "coverage_warning",
        Json::str(runtime_check_coverage_warning()),
    );
    let workflows = Json::list3(
        workflow_entry("load_project_then_eva", eva_available),
        workflow_entry("sandbox_cegis_then_merge", ast_available),
        workflow_entry("wp_main_or_sandbox", wp_available && ast_available),
    );
    let found = Json::object().with(
        "temp_dir_writeability",
        copy_outer(self_check, "temp_dir_writeability"),
    ).with("socket_spawn", copy_outer(self_check, "socket_spawn")).with(
        "why3",
        copy_outer(self_check, "why3"),
    );
    Json::object().with("server", identity).with(
        "processes",
        copy_outer(self_check, "processes"),
    ).with("frama_c", copy_outer(self_check, "frama_c")).with("ast_utils", ast_utils).with(
        "eva",
        eva_part,
    ).with("wp", wp_part).with("e_acsl", e_acsl).with("supported_workflows", workflows).with(
        "known_frama_c_version_limitations",
        Json::strings(&limitations),
    ).with("self_check", found)
}

/// A workflow is offered only where every request that it takes was asked for and answered.
pub proof fn law_unanswered_requests_are_not_available(requests: Seq<JsonView>, i: int)
    requires
        0 <= i < requests.len(),
        !says(requests[i], "status"@, "present"@),
    ensures
        !all_present(requests),
        !all_present(Seq::<JsonView>::empty()),
{
}

// ---------------------------------------------------------------------------
// What holds of what is offered
// ---------------------------------------------------------------------------

/// The reports of a domain are those that name it, in order.
pub proof fn law_reports_belong_to_their_domain(s: Seq<JsonView>, r: JsonView, domain: Seq<char>)
    ensures
        r.text("domain"@) == Some(domain) ==> of_domain(s.push(r), domain) == of_domain(
            s,
            domain,
        ).push(r),
        r.text("domain"@) != Some(domain) ==> of_domain(s.push(r), domain) == of_domain(s, domain),
        of_domain(Seq::empty(), domain).len() == 0,
{
    assert(s.push(r).drop_last() =~= s);
}

/// A part is available where it has requests and every one of them is there.
pub proof fn law_available_where_every_request_is_there(requests: Seq<JsonView>)
    ensures
        requests.len() > 0 && (forall|i: int|
            0 <= i < requests.len() ==> (#[trigger] requests[i]).text("status"@) == Some(
                "present"@,
            )) ==> all_present(requests),
        requests.len() == 0 ==> !all_present(requests),
{
    if requests.len() > 0 && (forall|i: int|
        0 <= i < requests.len() ==> (#[trigger] requests[i]).text("status"@) == Some("present"@)) {
        assert forall|i: int| 0 <= i < requests.len() implies says(
            #[trigger] requests[i],
            "status"@,
            "present"@,
        ) by {}
    }
}

/// A tool is named where it was found; the checker can be used where one of its tools is usable.
pub proof fn law_tools_that_were_found(entries: Seq<JsonView>, e: JsonView, tool: Seq<char>, i: int)
    ensures
        e.text("status"@) == Some("found"@) && e.text("tool"@) == Some(tool) ==> found_tools(
            entries.push(e),
        ) == found_tools(entries).push(tool),
        e.text("status"@) != Some("found"@) ==> found_tools(entries.push(e)) == found_tools(entries),
        0 <= i < entries.len() && entries[i].flag("usable"@) == Some(true) ==> some_usable(entries),
        (forall|j: int| 0 <= j < entries.len() ==> (#[trigger] entries[j]).flag("usable"@) != Some(
            true,
        )) ==> !some_usable(entries),
{
    assert(entries.push(e).drop_last() =~= entries);
}

/// What is offered is what was found: each part is available where its requests are all there, and a
/// workflow where every part it needs is.
#[verifier::rlimit(60)]
pub proof fn law_what_is_offered(
    check: JsonView,
    server: ServerIdentity,
    support: WpModelSupport,
    cvc5: bool,
    z3: bool,
)
    ensures
        ({
            let c = capabilities(check, server, support, cvc5, z3);
            let eva = all_present(domain_reports(check, "eva"@));
            let wp = all_present(domain_reports(check, "wp"@));
            let ast = all_present(domain_reports(check, "ast-utils"@));
            &&& c.at("eva"@, "available"@) == Some(JsonView::Bool(eva))
            &&& c.at("wp"@, "available"@) == Some(JsonView::Bool(wp))
            &&& c.get("processes"@) == Some(JsonView::or_null(check.get("processes"@)))
            &&& c.get("frama_c"@) == Some(JsonView::or_null(check.get("frama_c"@)))
            &&& c.at("server"@, "version"@) == Some(JsonView::Str(server.version@))
            &&& c.at("server"@, "tool_count"@) == Some(JsonView::num(14))
            &&& c.at("server"@, "protocol_version"@) == Some(
                JsonView::Str(server.protocol_version@),
            )
            &&& c.list("supported_workflows"@) is Some
            &&& c.list("supported_workflows"@)->0 == seq![
                workflow("load_project_then_eva"@, eva),
                workflow("sandbox_cegis_then_merge"@, ast),
                workflow("wp_main_or_sandbox"@, wp && ast),
            ]
            &&& c.at("wp"@, "memory_model"@) == Some(memory_model(support))
        }),
{
    broadcast use crate::json::group_object_reads;

    reveal_strlit("server");
    reveal_strlit("processes");
    reveal_strlit("frama_c");
    reveal_strlit("ast_utils");
    reveal_strlit("eva");
    reveal_strlit("wp");
    reveal_strlit("e_acsl");
    reveal_strlit("supported_workflows");
    reveal_strlit("known_frama_c_version_limitations");
    reveal_strlit("self_check");
    assert("server"@.len() == 6 && "processes"@.len() == 9);
    assert("frama_c"@.len() == 7 && "ast_utils"@.len() == 9);
    assert("eva"@.len() == 3 && "wp"@.len() == 2);
    assert("e_acsl"@.len() == 6 && "supported_workflows"@.len() == 19);
    assert("known_frama_c_version_limitations"@.len() == 33 && "self_check"@.len() == 10);
    assert("server"@[0] != "e_acsl"@[0]);
    assert("processes"@[0] != "ast_utils"@[0]);
    reveal_strlit("version");
    reveal_strlit("tool_count");
    reveal_strlit("protocol_version");
    reveal_strlit("supported_protocol_versions");
    assert("version"@.len() == 7 && "tool_count"@.len() == 10);
    assert("protocol_version"@.len() == 16 && "supported_protocol_versions"@.len() == 27);
    reveal_strlit("available");
    reveal_strlit("requests");
    reveal_strlit("memory_model");
    reveal_strlit("default_provers");
    reveal_strlit("default_timeout_seconds");
    reveal_strlit("timeout_source");
    assert("available"@.len() == 9 && "requests"@.len() == 8);
    assert("memory_model"@.len() == 12 && "default_provers"@.len() == 15);
    assert("default_timeout_seconds"@.len() == 23 && "timeout_source"@.len() == 14);
}

/// What is said of a workflow and of the memory models.
pub proof fn law_workflows_and_models_are_told(name: Seq<char>, available: bool, support: WpModelSupport)
    ensures
        workflow(name, available).text("name"@) == Some(name),
        workflow(name, available).flag("available"@) == Some(available),
        memory_model(support).text("default"@) == Some("Typed+nocast"@),
        memory_model(support).get("bases"@) == Some(JsonView::strings(texts(support.bases@))),
        memory_model(support).get("modifiers"@) == Some(
            JsonView::strings(texts(support.modifiers@)),
        ),
        memory_model(support).get("supported"@) == Some(JsonView::strings(common(support@))),
        memory_model(support).text("source"@) == Some(support.source@),
{
    broadcast use crate::json::group_object_reads;

    reveal_strlit("name");
    reveal_strlit("available");
    assert("name"@.len() == 4 && "available"@.len() == 9);
    reveal_strlit("default");
    reveal_strlit("supported");
    reveal_strlit("bases");
    reveal_strlit("modifiers");
    reveal_strlit("source");
    assert("default"@.len() == 7 && "supported"@.len() == 9);
    assert("bases"@.len() == 5 && "modifiers"@.len() == 9);
    assert("source"@.len() == 6);
    assert("supported"@[0] != "modifiers"@[0]);
}

} // verus!
