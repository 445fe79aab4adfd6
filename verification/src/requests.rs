//! The requests that Frama-C is asked, and how their presence is probed.

use crate::json::{Json, JsonView};
use crate::text::{
    ascii_lower, begins, cat3, contains, decimal, decimal_text, occurs, same, slices,
    to_ascii_lowercase,
};
use vstd::prelude::*;

verus! {

/// The verb that a request is sent with.
#[derive(Clone, Copy, PartialEq, Eq, Debug, Structural)]
pub enum ProbeKind {
    Get,
    Put,
    Exec,
}

/// A request, the part of Frama-C that answers it, and the verb it is sent with.
#[derive(Clone, Copy, Debug)]
pub struct RequiredRequest {
    pub domain: &'static str,
    pub request: &'static str,
    pub kind: ProbeKind,
}

/// A request, as a mathematical object.
pub struct RequestView {
    pub domain: Seq<char>,
    pub request: Seq<char>,
    pub kind: ProbeKind,
}

impl View for RequiredRequest {
    type V = RequestView;

    open spec fn view(&self) -> RequestView {
        RequestView { domain: self.domain@, request: self.request@, kind: self.kind }
    }
}

/// Requests, as views.
pub open spec fn request_views(v: Seq<RequiredRequest>) -> Seq<RequestView> {
    v.map_values(|r: RequiredRequest| r@)
}

/// A request of the plug-in: its name, its verb, and whether it is probed live.
pub type AstUtilsSpec = (&'static str, ProbeKind, bool);

/// Requests of the plug-in, as views.
pub open spec fn plugin_views(v: Seq<AstUtilsSpec>) -> Seq<(Seq<char>, ProbeKind, bool)> {
    v.map_values(|e: AstUtilsSpec| (e.0@, e.1, e.2))
}

/// A request.
pub open spec fn request(domain: Seq<char>, request: Seq<char>, kind: ProbeKind) -> RequestView {
    RequestView { domain, request, kind }
}

// ---------------------------------------------------------------------------
// The tables
// ---------------------------------------------------------------------------

/// The requests of the kernel and its plug-ins that every workflow depends on.
pub open spec fn core_table() -> Seq<RequestView> {
    seq![
        request("kernel"@, "kernel.ast.getFiles"@, ProbeKind::Get),
        request("kernel"@, "kernel.ast.fetchFunctions"@, ProbeKind::Get),
        request("kernel"@, "kernel.ast.fetchGlobals"@, ProbeKind::Get),
        request("kernel"@, "kernel.ast.reloadFunctions"@, ProbeKind::Get),
        request("kernel"@, "kernel.ast.reloadGlobals"@, ProbeKind::Get),
        request("kernel"@, "kernel.ast.getDeclarations"@, ProbeKind::Get),
        request("kernel"@, "kernel.ast.printDeclaration"@, ProbeKind::Get),
        request("kernel"@, "kernel.properties.fetchStatus"@, ProbeKind::Get),
        request("kernel"@, "kernel.properties.reloadStatus"@, ProbeKind::Get),
        request("kernel"@, "kernel.services.setLogs"@, ProbeKind::Put),
        request("kernel"@, "kernel.services.getLogs"@, ProbeKind::Get),
        request("callgraph"@, "plugins.callgraph.compute"@, ProbeKind::Exec),
        request("callgraph"@, "plugins.callgraph.getCallgraph"@, ProbeKind::Get),
        request("eva"@, "plugins.eva.analysis.compute"@, ProbeKind::Exec),
        request("eva"@, "plugins.eva.analysis.getComputationState"@, ProbeKind::Get),
        request("eva"@, "plugins.eva.stats.getProgramStats"@, ProbeKind::Get),
        request("eva"@, "plugins.eva.ast.getCallers"@, ProbeKind::Get),
        request("eva"@, "plugins.eva.values.getValues"@, ProbeKind::Get),
        request("wp"@, "plugins.wp.reloadGoals"@, ProbeKind::Get),
        request("wp"@, "plugins.wp.fetchGoals"@, ProbeKind::Get),
        request("wp"@, "plugins.wp.getScheduledTasks"@, ProbeKind::Get),
        request("wp"@, "plugins.wp.getProvers"@, ProbeKind::Get),
        request("wp"@, "plugins.wp.getTimeout"@, ProbeKind::Get),
        request("wp"@, "plugins.wp.setTimeout"@, ProbeKind::Put),
        request("wp"@, "plugins.wp.startProofs"@, ProbeKind::Exec),
    ]
}

/// The requests of the kernel and its plug-ins that every workflow depends on.
pub fn core_requests() -> (r: Vec<RequiredRequest>)
    ensures
        request_views(r@) == core_table(),
{
    let r: Vec<RequiredRequest> = vec![
        RequiredRequest { domain: "kernel", request: "kernel.ast.getFiles", kind: ProbeKind::Get },
        RequiredRequest { domain: "kernel", request: "kernel.ast.fetchFunctions", kind: ProbeKind::Get },
        RequiredRequest { domain: "kernel", request: "kernel.ast.fetchGlobals", kind: ProbeKind::Get },
        RequiredRequest { domain: "kernel", request: "kernel.ast.reloadFunctions", kind: ProbeKind::Get },
        RequiredRequest { domain: "kernel", request: "kernel.ast.reloadGlobals", kind: ProbeKind::Get },
        RequiredRequest { domain: "kernel", request: "kernel.ast.getDeclarations", kind: ProbeKind::Get },
        RequiredRequest { domain: "kernel", request: "kernel.ast.printDeclaration", kind: ProbeKind::Get },
        RequiredRequest { domain: "kernel", request: "kernel.properties.fetchStatus", kind: ProbeKind::Get },
        RequiredRequest { domain: "kernel", request: "kernel.properties.reloadStatus", kind: ProbeKind::Get },
        RequiredRequest { domain: "kernel", request: "kernel.services.setLogs", kind: ProbeKind::Put },
        RequiredRequest { domain: "kernel", request: "kernel.services.getLogs", kind: ProbeKind::Get },
        RequiredRequest { domain: "callgraph", request: "plugins.callgraph.compute", kind: ProbeKind::Exec },
        RequiredRequest { domain: "callgraph", request: "plugins.callgraph.getCallgraph", kind: ProbeKind::Get },
        RequiredRequest { domain: "eva", request: "plugins.eva.analysis.compute", kind: ProbeKind::Exec },
        RequiredRequest { domain: "eva", request: "plugins.eva.analysis.getComputationState", kind: ProbeKind::Get },
        RequiredRequest { domain: "eva", request: "plugins.eva.stats.getProgramStats", kind: ProbeKind::Get },
        RequiredRequest { domain: "eva", request: "plugins.eva.ast.getCallers", kind: ProbeKind::Get },
        RequiredRequest { domain: "eva", request: "plugins.eva.values.getValues", kind: ProbeKind::Get },
        RequiredRequest { domain: "wp", request: "plugins.wp.reloadGoals", kind: ProbeKind::Get },
        RequiredRequest { domain: "wp", request: "plugins.wp.fetchGoals", kind: ProbeKind::Get },
        RequiredRequest { domain: "wp", request: "plugins.wp.getScheduledTasks", kind: ProbeKind::Get },
        RequiredRequest { domain: "wp", request: "plugins.wp.getProvers", kind: ProbeKind::Get },
        RequiredRequest { domain: "wp", request: "plugins.wp.getTimeout", kind: ProbeKind::Get },
        RequiredRequest { domain: "wp", request: "plugins.wp.setTimeout", kind: ProbeKind::Put },
        RequiredRequest { domain: "wp", request: "plugins.wp.startProofs", kind: ProbeKind::Exec },
    ];
    assert(request_views(r@) =~= core_table());
    r
}

/// The setters and recomputations, probed last because they would perturb the others.
pub open spec fn parameter_table() -> Seq<RequestView> {
    seq![
        request("kernel"@, "kernel.parameters.setMain"@, ProbeKind::Put),
        request("kernel"@, "kernel.parameters.setEvaPrecision"@, ProbeKind::Put),
        request("kernel"@, "kernel.parameters.setEvaSlevel"@, ProbeKind::Put),
        request("kernel"@, "kernel.parameters.setEvaIlevel"@, ProbeKind::Put),
        request("kernel"@, "kernel.ast.compute"@, ProbeKind::Exec),
        request("kernel"@, "kernel.ast.setFiles"@, ProbeKind::Put),
    ]
}

/// The setters and recomputations, probed last because they would perturb the others.
pub fn setter_requests() -> (r: Vec<RequiredRequest>)
    ensures
        request_views(r@) == parameter_table(),
{
    let r: Vec<RequiredRequest> = vec![
        RequiredRequest { domain: "kernel", request: "kernel.parameters.setMain", kind: ProbeKind::Put },
        RequiredRequest { domain: "kernel", request: "kernel.parameters.setEvaPrecision", kind: ProbeKind::Put },
        RequiredRequest { domain: "kernel", request: "kernel.parameters.setEvaSlevel", kind: ProbeKind::Put },
        RequiredRequest { domain: "kernel", request: "kernel.parameters.setEvaIlevel", kind: ProbeKind::Put },
        RequiredRequest { domain: "kernel", request: "kernel.ast.compute", kind: ProbeKind::Exec },
        RequiredRequest { domain: "kernel", request: "kernel.ast.setFiles", kind: ProbeKind::Put },
    ];
    assert(request_views(r@) =~= parameter_table());
    r
}

/// The requests that the plug-in registers, and whether each is probed live. Removals and the
/// life of a sandbox are not, because a probe would change the loaded project.
pub open spec fn plugin_table() -> Seq<(Seq<char>, ProbeKind, bool)> {
    seq![
        ("plugins.ast-utils.getFunctionAst"@, ProbeKind::Get, true),
        ("plugins.ast-utils.getCilContext"@, ProbeKind::Get, true),
        ("plugins.ast-utils.getContractContext"@, ProbeKind::Get, true),
        ("plugins.ast-utils.getClauseOrigin"@, ProbeKind::Get, true),
        ("plugins.ast-utils.getWriteEffects"@, ProbeKind::Get, true),
        ("plugins.ast-utils.getLoopEffects"@, ProbeKind::Get, true),
        ("plugins.ast-utils.getLogicDeps"@, ProbeKind::Get, true),
        ("plugins.ast-utils.getRteObligations"@, ProbeKind::Get, true),
        ("plugins.ast-utils.getAcslValidation"@, ProbeKind::Get, true),
        ("plugins.ast-utils.execSetWpConfig"@, ProbeKind::Exec, true),
        ("plugins.ast-utils.execAddAnnotation"@, ProbeKind::Exec, true),
        ("plugins.ast-utils.execAddGlobalAcsl"@, ProbeKind::Exec, true),
        ("plugins.ast-utils.execRemoveGlobalAcsl"@, ProbeKind::Exec, false),
        ("plugins.ast-utils.execInsertGhostGlobal"@, ProbeKind::Exec, true),
        ("plugins.ast-utils.execInsertGhostFormal"@, ProbeKind::Exec, true),
        ("plugins.ast-utils.execInsertGhostLemmaFunction"@, ProbeKind::Exec, true),
        ("plugins.ast-utils.execInsertGhostLoop"@, ProbeKind::Exec, true),
        ("plugins.ast-utils.execRemoveAnnotations"@, ProbeKind::Exec, false),
        ("plugins.ast-utils.execRemoveAnnotationByLabel"@, ProbeKind::Exec, false),
        ("plugins.ast-utils.execInsertGhostStmt"@, ProbeKind::Exec, true),
        ("plugins.ast-utils.getVcDetails"@, ProbeKind::Get, true),
        ("plugins.ast-utils.getMarkerFunction"@, ProbeKind::Get, false),
        ("plugins.ast-utils.execCreateSandbox"@, ProbeKind::Exec, false),
        ("plugins.ast-utils.execDeleteSandbox"@, ProbeKind::Exec, false),
        ("plugins.ast-utils.extractFunctionWithDeps"@, ProbeKind::Get, true),
        ("plugins.ast-utils.execExtractAnnotations"@, ProbeKind::Get, true),
        ("plugins.ast-utils.printSource"@, ProbeKind::Get, true),
        ("plugins.ast-utils.dumpProject"@, ProbeKind::Get, false),
    ]
}

/// The requests that the plug-in registers, and whether each is probed live.
pub fn ast_utils_requests() -> (r: Vec<AstUtilsSpec>)
    ensures
        plugin_views(r@) == plugin_table(),
{
    let r: Vec<AstUtilsSpec> = vec![
        ("plugins.ast-utils.getFunctionAst", ProbeKind::Get, true),
        ("plugins.ast-utils.getCilContext", ProbeKind::Get, true),
        ("plugins.ast-utils.getContractContext", ProbeKind::Get, true),
        ("plugins.ast-utils.getClauseOrigin", ProbeKind::Get, true),
        ("plugins.ast-utils.getWriteEffects", ProbeKind::Get, true),
        ("plugins.ast-utils.getLoopEffects", ProbeKind::Get, true),
        ("plugins.ast-utils.getLogicDeps", ProbeKind::Get, true),
        ("plugins.ast-utils.getRteObligations", ProbeKind::Get, true),
        ("plugins.ast-utils.getAcslValidation", ProbeKind::Get, true),
        ("plugins.ast-utils.execSetWpConfig", ProbeKind::Exec, true),
        ("plugins.ast-utils.execAddAnnotation", ProbeKind::Exec, true),
        ("plugins.ast-utils.execAddGlobalAcsl", ProbeKind::Exec, true),
        ("plugins.ast-utils.execRemoveGlobalAcsl", ProbeKind::Exec, false),
        ("plugins.ast-utils.execInsertGhostGlobal", ProbeKind::Exec, true),
        ("plugins.ast-utils.execInsertGhostFormal", ProbeKind::Exec, true),
        ("plugins.ast-utils.execInsertGhostLemmaFunction", ProbeKind::Exec, true),
        ("plugins.ast-utils.execInsertGhostLoop", ProbeKind::Exec, true),
        ("plugins.ast-utils.execRemoveAnnotations", ProbeKind::Exec, false),
        ("plugins.ast-utils.execRemoveAnnotationByLabel", ProbeKind::Exec, false),
        ("plugins.ast-utils.execInsertGhostStmt", ProbeKind::Exec, true),
        ("plugins.ast-utils.getVcDetails", ProbeKind::Get, true),
        ("plugins.ast-utils.getMarkerFunction", ProbeKind::Get, false),
        ("plugins.ast-utils.execCreateSandbox", ProbeKind::Exec, false),
        ("plugins.ast-utils.execDeleteSandbox", ProbeKind::Exec, false),
        ("plugins.ast-utils.extractFunctionWithDeps", ProbeKind::Get, true),
        ("plugins.ast-utils.execExtractAnnotations", ProbeKind::Get, true),
        ("plugins.ast-utils.printSource", ProbeKind::Get, true),
        ("plugins.ast-utils.dumpProject", ProbeKind::Get, false),
    ];
    assert(plugin_views(r@) =~= plugin_table());
    r
}

/// The requests that are sent and deliberately not probed, each with the reason.
pub open spec fn unprobed_table() -> Seq<(Seq<char>, Seq<char>)> {
    seq![
        ("plugins.eva.general.compute"@, "fallback for plugins.eva.analysis.compute"@),
        ("plugins.eva.general.getComputationState"@, "fallback for plugins.eva.analysis.getComputationState"@),
        ("plugins.eva.general.getProgramStats"@, "fallback for plugins.eva.stats.getProgramStats"@),
        ("plugins.eva.general.getCallers"@, "fallback for plugins.eva.ast.getCallers"@),
        ("plugins.wp.setProvers"@, "absent on 33.0; probing reports a missing request on a correct install"@),
        ("plugins.wp.setCacheMode"@, "SET; would change the cache mode every later proof runs under"@),
        ("plugins.wp.setProverState"@, "SET; would enable or disable a prover for the session"@),
        ("plugins.wp.cancelProofTasks"@, "SET; would cancel a live proof run"@),
        ("plugins.wp.generateRTEGuards"@, "EXEC; mutates the AST and needs a registered tag"@),
        ("kernel.ast.getMarkerAt"@, "GET, but its input is a marker nothing has registered at probe time"@),
    ]
}

/// What a list of names with reasons says.
pub open spec fn reasoned(v: Seq<(&'static str, &'static str)>) -> Seq<(Seq<char>, Seq<char>)> {
    v.map_values(|e: (&'static str, &'static str)| (e.0@, e.1@))
}

/// The names among names with reasons.
pub open spec fn reasoned_names(s: Seq<(Seq<char>, Seq<char>)>) -> Seq<Seq<char>> {
    s.map_values(|e: (Seq<char>, Seq<char>)| e.0)
}

/// The requests that are sent and deliberately not probed, with the reason for each.
pub fn unprobed_requests() -> (r: Vec<(&'static str, &'static str)>)
    ensures
        reasoned(r@) == unprobed_table(),
{
    let r: Vec<(&'static str, &'static str)> = vec![
        ("plugins.eva.general.compute", "fallback for plugins.eva.analysis.compute"),
        ("plugins.eva.general.getComputationState", "fallback for plugins.eva.analysis.getComputationState"),
        ("plugins.eva.general.getProgramStats", "fallback for plugins.eva.stats.getProgramStats"),
        ("plugins.eva.general.getCallers", "fallback for plugins.eva.ast.getCallers"),
        ("plugins.wp.setProvers", "absent on 33.0; probing reports a missing request on a correct install"),
        ("plugins.wp.setCacheMode", "SET; would change the cache mode every later proof runs under"),
        ("plugins.wp.setProverState", "SET; would enable or disable a prover for the session"),
        ("plugins.wp.cancelProofTasks", "SET; would cancel a live proof run"),
        ("plugins.wp.generateRTEGuards", "EXEC; mutates the AST and needs a registered tag"),
        ("kernel.ast.getMarkerAt", "GET, but its input is a marker nothing has registered at probe time"),
    ];
    assert(reasoned(r@) =~= unprobed_table());
    r
}

/// A request of the plug-in.
pub open spec fn plugin_request(e: (Seq<char>, ProbeKind, bool)) -> RequestView {
    request("ast-utils"@, e.0, e.1)
}

/// The requests of the plug-in among some that are probed live.
pub open spec fn probed_live(s: Seq<(Seq<char>, ProbeKind, bool)>) -> Seq<RequestView>
    decreases s.len(),
{
    if s.len() == 0 {
        Seq::empty()
    } else if s.last().2 {
        probed_live(s.drop_last()).push(plugin_request(s.last()))
    } else {
        probed_live(s.drop_last())
    }
}

/// Everything that the plug-in registers.
pub open spec fn registered() -> Seq<RequestView> {
    plugin_table().map_values(|e: (Seq<char>, ProbeKind, bool)| plugin_request(e))
}

/// Everything that the plug-in registers.
pub fn ast_utils_registered_requests() -> (r: Vec<RequiredRequest>)
    ensures
        request_views(r@) == registered(),
{
    let table = ast_utils_requests();
    let mut out: Vec<RequiredRequest> = Vec::new();
    let mut i: usize = 0;
    while i < table.len()
        invariant
            i <= table@.len(),
            plugin_views(table@) == plugin_table(),
            out@.len() == i,
            forall|k: int|
                0 <= k < i ==> (#[trigger] out@[k])@ == plugin_request(plugin_views(table@)[k]),
        decreases table@.len() - i,
    {
        let (request, kind, _) = table[i];
        out.push(RequiredRequest { domain: "ast-utils", request, kind });
        i = i + 1;
    }
    assert(plugin_views(table@).len() == table@.len());
    assert(request_views(out@) =~= registered());
    out
}

/// Everything that is probed before the parameters, in the order of the probes.
pub open spec fn required() -> Seq<RequestView> {
    core_table() + probed_live(plugin_table())
}

/// Everything that is probed before the parameters, in the order of the probes.
pub fn required_requests() -> (r: Vec<RequiredRequest>)
    ensures
        request_views(r@) == required(),
{
    let mut out = core_requests();
    let table = ast_utils_requests();
    let ghost all = plugin_views(table@);
    let mut i: usize = 0;
    assert(all.subrange(0, 0) =~= Seq::empty());
    assert(request_views(out@) =~= core_table() + probed_live(all.subrange(0, 0)));
    while i < table.len()
        invariant
            i <= table@.len(),
            all == plugin_views(table@),
            all == plugin_table(),
            request_views(out@) == core_table() + probed_live(all.subrange(0, i as int)),
        decreases table@.len() - i,
    {
        proof {
            crate::json::lemma_take_next(all, i as int);
        }
        let (request, kind, probed) = table[i];
        assert(all[i as int] == (request@, kind, probed));
        if probed {
            let ghost before = out@;
            let q = RequiredRequest { domain: "ast-utils", request, kind };
            out.push(q);
            assert(request_views(out@) =~= request_views(before).push(q@));
            assert(request_views(out@) =~= core_table() + probed_live(
                all.subrange(0, i as int + 1),
            ));
        }
        i = i + 1;
    }
    assert(all.subrange(0, i as int) =~= all);
    out
}

/// The getters that read a setting back.
pub open spec fn getters(readback: Seq<Seq<char>>) -> Seq<RequestView> {
    readback.map_values(|name: Seq<char>| request("kernel"@, name, ProbeKind::Get))
}

/// The getters that read settings back, and then the setters that would disturb them.
pub open spec fn parameters(readback: Seq<Seq<char>>) -> Seq<RequestView> {
    getters(readback) + parameter_table()
}

/// The getters that read settings back, and then the setters that would disturb them. The getters
/// are those that the analysis reads its settings through, so that none is probed or forgotten by
/// hand.
pub fn parameter_requests(readback: &Vec<&'static str>) -> (r: Vec<RequiredRequest>)
    ensures
        request_views(r@) == parameters(slices(readback@)),
{
    let mut out: Vec<RequiredRequest> = Vec::new();
    let mut i: usize = 0;
    while i < readback.len()
        invariant
            i <= readback@.len(),
            out@.len() == i,
            forall|k: int|
                0 <= k < i ==> (#[trigger] out@[k])@ == request(
                    "kernel"@,
                    readback@[k]@,
                    ProbeKind::Get,
                ),
        decreases readback@.len() - i,
    {
        out.push(RequiredRequest { domain: "kernel", request: readback[i], kind: ProbeKind::Get });
        i = i + 1;
    }
    assert(request_views(out@) =~= getters(slices(readback@)));
    let ghost first = out@;
    let mut setters = setter_requests();
    let ghost more = setters@;
    out.append(&mut setters);
    assert(request_views(out@) =~= request_views(first) + request_views(more));
    out
}

/// The names of requests.
pub open spec fn names(s: Seq<RequestView>) -> Seq<Seq<char>> {
    s.map_values(|r: RequestView| r.request)
}

/// Every request that is known, probed or not, by name.
pub open spec fn known(readback: Seq<Seq<char>>) -> Seq<Seq<char>> {
    names(core_table()) + names(parameter_table()) + readback + plugin_table().map_values(
        |e: (Seq<char>, ProbeKind, bool)| e.0,
    ) + reasoned_names(unprobed_table())
}

fn push_names(out: &mut Vec<&'static str>, requests: &Vec<RequiredRequest>)
    ensures
        slices(final(out)@) == slices(old(out)@) + names(request_views(requests@)),
{
    let ghost start = slices(out@);
    let ghost all = names(request_views(requests@));
    let mut i: usize = 0;
    while i < requests.len()
        invariant
            i <= requests@.len(),
            all == names(request_views(requests@)),
            slices(out@) =~= start + all.subrange(0, i as int),
        decreases requests@.len() - i,
    {
        let name = requests[i].request;
        let ghost before = out@;
        out.push(name);
        assert(slices(out@) =~= slices(before).push(name@));
        assert(all[i as int] == name@);
        i = i + 1;
    }
    assert(all.subrange(0, i as int) =~= all);
}

/// Every request that is known, probed or not, by name.
pub fn known_request_names(readback: &Vec<&'static str>) -> (r: Vec<&'static str>)
    ensures
        slices(r@) == known(slices(readback@)),
{
    let mut out: Vec<&'static str> = Vec::new();
    assert(slices(out@) =~= Seq::empty());
    push_names(&mut out, &core_requests());
    push_names(&mut out, &setter_requests());
    let ghost start = slices(out@);
    let mut i: usize = 0;
    while i < readback.len()
        invariant
            i <= readback@.len(),
            slices(out@) =~= start + slices(readback@).subrange(0, i as int),
        decreases readback@.len() - i,
    {
        let name = readback[i];
        let ghost before = out@;
        out.push(name);
        assert(slices(out@) =~= slices(before).push(name@));
        i = i + 1;
    }
    assert(slices(readback@).subrange(0, i as int) =~= slices(readback@));
    let ghost start = slices(out@);
    let table = ast_utils_requests();
    let ghost all = plugin_views(table@).map_values(|e: (Seq<char>, ProbeKind, bool)| e.0);
    let mut k: usize = 0;
    while k < table.len()
        invariant
            k <= table@.len(),
            all == plugin_views(table@).map_values(|e: (Seq<char>, ProbeKind, bool)| e.0),
            slices(out@) =~= start + all.subrange(0, k as int),
        decreases table@.len() - k,
    {
        let (name, _, _) = table[k];
        let ghost before = out@;
        out.push(name);
        assert(slices(out@) =~= slices(before).push(name@));
        assert(all[k as int] == name@);
        k = k + 1;
    }
    assert(all.subrange(0, k as int) =~= all);
    let ghost start = slices(out@);
    let unprobed = unprobed_requests();
    let ghost all = reasoned_names(reasoned(unprobed@));
    let mut m: usize = 0;
    while m < unprobed.len()
        invariant
            m <= unprobed@.len(),
            all == reasoned_names(reasoned(unprobed@)),
            slices(out@) =~= start + all.subrange(0, m as int),
        decreases unprobed@.len() - m,
    {
        let (name, _) = unprobed[m];
        let ghost before = out@;
        out.push(name);
        assert(slices(out@) =~= slices(before).push(name@));
        assert(all[m as int] == name@);
        m = m + 1;
    }
    assert(all.subrange(0, m as int) =~= all);
    out
}

proof fn lemma_probed_live_is_registered(s: Seq<(Seq<char>, ProbeKind, bool)>, r: RequestView)
    requires
        probed_live(s).contains(r),
    ensures
        exists|k: int| 0 <= k < s.len() && r == plugin_request(#[trigger] s[k]) && s[k].2,
    decreases s.len(),
{
    if s.len() > 0 {
        let t = s.drop_last();
        let p = probed_live(s);
        let j = choose|j: int| 0 <= j < p.len() && p[j] == r;
        if s.last().2 && j == p.len() - 1 {
            assert(r == plugin_request(s[s.len() - 1]));
        } else {
            assert(probed_live(t)[j] == r);
            assert(probed_live(t).contains(r));
            lemma_probed_live_is_registered(t, r);
            let k = choose|k: int| 0 <= k < t.len() && r == plugin_request(#[trigger] t[k]) && t[k].2;
            assert(s[k] == t[k]);
        }
    }
}

/// Whatever is probed is known.
pub proof fn law_probed_requests_are_known(readback: Seq<Seq<char>>, r: RequestView)
    requires
        required().contains(r) || registered().contains(r) || parameters(readback).contains(r),
    ensures
        known(readback).contains(r.request),
{
    let core = names(core_table());
    let setters = names(parameter_table());
    let plugin = plugin_table().map_values(|e: (Seq<char>, ProbeKind, bool)| e.0);
    let all = known(readback);
    let (a, b, c) = (core.len() as int, setters.len() as int, readback.len() as int);
    assert(core.len() == core_table().len());
    assert(setters.len() == parameter_table().len());
    if required().contains(r) {
        let j = choose|j: int| 0 <= j < required().len() && required()[j] == r;
        if j < core_table().len() {
            assert(all[j] == r.request);
        } else {
            assert(probed_live(plugin_table())[j - core_table().len()] == r);
            assert(probed_live(plugin_table()).contains(r));
            lemma_probed_live_is_registered(plugin_table(), r);
            let k = choose|k: int|
                0 <= k < plugin_table().len() && r == plugin_request(#[trigger] plugin_table()[k])
                    && plugin_table()[k].2;
            assert(plugin[k] == r.request);
            assert(all[a + b + c + k] == r.request);
        }
    } else if registered().contains(r) {
        let k = choose|k: int| 0 <= k < registered().len() && registered()[k] == r;
        assert(plugin[k] == r.request);
        assert(all[a + b + c + k] == r.request);
    } else {
        let k = choose|k: int|
            0 <= k < parameters(readback).len() && parameters(readback)[k] == r;
        if k < readback.len() {
            assert(r == getters(readback)[k]);
            assert(all[a + b + k] == r.request);
        } else {
            assert(r == parameter_table()[k - readback.len()]);
            assert(all[a + (k - readback.len())] == r.request);
        }
    }
}

// ---------------------------------------------------------------------------
// What a probe sends
// ---------------------------------------------------------------------------

/// What a probe of a request sends: something that does as little as a probe can.
pub open spec fn probe_data(request: Seq<char>) -> JsonView {
    if request == "kernel.ast.fetchFunctions"@ || request == "kernel.ast.fetchGlobals"@ || request == "kernel.properties.fetchStatus"@ || request == "plugins.wp.fetchGoals"@ {
        JsonView::num(1)
    } else if request == "kernel.ast.printDeclaration"@ || request == "kernel.parameters.setMain"@ || request == "plugins.eva.ast.getCallers"@ || request == "plugins.wp.startProofs"@ || request == "plugins.ast-utils.getFunctionAst"@ || request == "plugins.ast-utils.getCilContext"@ || request == "plugins.ast-utils.getContractContext"@ || request == "plugins.ast-utils.getClauseOrigin"@ || request == "plugins.ast-utils.getWriteEffects"@ || request == "plugins.ast-utils.getLoopEffects"@ || request == "plugins.ast-utils.getLogicDeps"@ || request == "plugins.ast-utils.getRteObligations"@ || request == "plugins.ast-utils.execRemoveAnnotations"@ || request == "plugins.ast-utils.execCreateSandbox"@ || request == "plugins.ast-utils.extractFunctionWithDeps"@ || request == "plugins.ast-utils.execExtractAnnotations"@ {
        JsonView::Str("main"@)
    } else if request == "kernel.ast.setFiles"@ {
        JsonView::Array(Seq::empty())
    } else if request == "kernel.parameters.setEvaPrecision"@ || request == "kernel.parameters.setEvaSlevel"@ {
        JsonView::num(0)
    } else if request == "kernel.parameters.setEvaIlevel"@ {
        JsonView::num(2)
    } else if request == "kernel.services.setLogs"@ {
        JsonView::Bool(true)
    } else if request == "plugins.eva.values.getValues"@ {
        JsonView::object().with("target"@, JsonView::Str("#s1"@))
    } else if request == "plugins.wp.setTimeout"@ {
        JsonView::num(10)
    } else if request == "plugins.ast-utils.getAcslValidation"@ || request == "plugins.ast-utils.execAddAnnotation"@ {
        JsonView::object().with("function"@, JsonView::Str("main"@)).with("kind"@, JsonView::Str("spec"@)).with("acsl"@, JsonView::Str("assigns \\nothing;"@))
    } else if request == "plugins.ast-utils.execSetWpConfig"@ {
        JsonView::object().with("model"@, JsonView::Str("Typed+nocast"@))
    } else if request == "plugins.ast-utils.execAddGlobalAcsl"@ || request == "plugins.ast-utils.execRemoveGlobalAcsl"@ {
        JsonView::object().with("acsl"@, JsonView::Str("predicate self_check_predicate(integer x) = x >= 0;"@))
    } else if request == "plugins.ast-utils.execInsertGhostGlobal"@ {
        JsonView::object().with("name"@, JsonView::Str("self_check_ghost_global"@)).with("type"@, JsonView::Str("int"@)).with("expr"@, JsonView::Str("0"@))
    } else if request == "plugins.ast-utils.execInsertGhostFormal"@ {
        JsonView::object().with("function"@, JsonView::Str("main"@)).with("name"@, JsonView::Str("self_check_ghost_formal"@)).with("type"@, JsonView::Str("int"@)).with("where"@, JsonView::Str("$"@))
    } else if request == "plugins.ast-utils.execInsertGhostLemmaFunction"@ {
        JsonView::object().with("name"@, JsonView::Str("self_check_ghost_lemma"@)).with("param"@, JsonView::Str("n"@)).with("param_type"@, JsonView::Str("int"@)).with("requires"@, JsonView::Str("n >= 0"@)).with("decreases"@, JsonView::Str("n"@)).with("assigns"@, JsonView::Str("\\nothing"@)).with("ensures"@, JsonView::Str("n >= 0"@))
    } else if request == "plugins.ast-utils.execInsertGhostLoop"@ {
        JsonView::object().with("function"@, JsonView::Str("main"@)).with("stmt"@, JsonView::num(1)).with("name"@, JsonView::Str("self_check_ghost_loop"@)).with("type"@, JsonView::Str("unsigned"@)).with("stop"@, JsonView::Str("1"@)).with("invariant"@, JsonView::Str("0 <= self_check_ghost_loop <= 1"@)).with("assigns"@, JsonView::Str("self_check_ghost_loop"@)).with("variant"@, JsonView::Str("1 - self_check_ghost_loop"@))
    } else if request == "plugins.ast-utils.execRemoveAnnotationByLabel"@ {
        JsonView::object().with("function"@, JsonView::Str("main"@)).with("label"@, JsonView::Str("self_check_missing_label"@))
    } else if request == "plugins.ast-utils.execInsertGhostStmt"@ {
        JsonView::object().with("function"@, JsonView::Str("main"@)).with("stmt"@, JsonView::num(1)).with("op"@, JsonView::Str("decl"@)).with("name"@, JsonView::Str("self_check_ghost"@)).with("type"@, JsonView::Str("int"@)).with("expr"@, JsonView::Str("0"@))
    } else if request == "plugins.ast-utils.getVcDetails"@ {
        JsonView::object().with("function"@, JsonView::Str("main"@))
    } else if request == "plugins.ast-utils.execDeleteSandbox"@ {
        JsonView::Str("__sandbox__missing_00000000"@)
    } else if request == "plugins.ast-utils.printSource"@ || request == "plugins.ast-utils.dumpProject"@ {
        JsonView::Str(""@)
    } else {
        JsonView::Null
    }
}

/// What a probe of a request sends.
pub fn probe_payload(request: &str) -> (r: Json)
    ensures
        r@ == probe_data(request@),
{
    if same(request, "kernel.ast.fetchFunctions") || same(request, "kernel.ast.fetchGlobals") || same(request, "kernel.properties.fetchStatus") || same(request, "plugins.wp.fetchGoals") {
        Json::num(1)
    } else if same(request, "kernel.ast.printDeclaration") || same(request, "kernel.parameters.setMain") || same(request, "plugins.eva.ast.getCallers") || same(request, "plugins.wp.startProofs") || same(request, "plugins.ast-utils.getFunctionAst") || same(request, "plugins.ast-utils.getCilContext") || same(request, "plugins.ast-utils.getContractContext") || same(request, "plugins.ast-utils.getClauseOrigin") || same(request, "plugins.ast-utils.getWriteEffects") || same(request, "plugins.ast-utils.getLoopEffects") || same(request, "plugins.ast-utils.getLogicDeps") || same(request, "plugins.ast-utils.getRteObligations") || same(request, "plugins.ast-utils.execRemoveAnnotations") || same(request, "plugins.ast-utils.execCreateSandbox") || same(request, "plugins.ast-utils.extractFunctionWithDeps") || same(request, "plugins.ast-utils.execExtractAnnotations") {
        Json::str("main")
    } else if same(request, "kernel.ast.setFiles") {
        Json::list0()
    } else if same(request, "kernel.parameters.setEvaPrecision") || same(request, "kernel.parameters.setEvaSlevel") {
        Json::num(0)
    } else if same(request, "kernel.parameters.setEvaIlevel") {
        Json::num(2)
    } else if same(request, "kernel.services.setLogs") {
        Json::Bool(true)
    } else if same(request, "plugins.eva.values.getValues") {
        Json::object().with("target", Json::str("#s1"))
    } else if same(request, "plugins.wp.setTimeout") {
        Json::num(10)
    } else if same(request, "plugins.ast-utils.getAcslValidation") || same(request, "plugins.ast-utils.execAddAnnotation") {
        Json::object().with("function", Json::str("main")).with("kind", Json::str("spec")).with("acsl", Json::str("assigns \\nothing;"))
    } else if same(request, "plugins.ast-utils.execSetWpConfig") {
        Json::object().with("model", Json::str("Typed+nocast"))
    } else if same(request, "plugins.ast-utils.execAddGlobalAcsl") || same(request, "plugins.ast-utils.execRemoveGlobalAcsl") {
        Json::object().with("acsl", Json::str("predicate self_check_predicate(integer x) = x >= 0;"))
    } else if same(request, "plugins.ast-utils.execInsertGhostGlobal") {
        Json::object().with("name", Json::str("self_check_ghost_global")).with("type", Json::str("int")).with("expr", Json::str("0"))
    } else if same(request, "plugins.ast-utils.execInsertGhostFormal") {
        Json::object().with("function", Json::str("main")).with("name", Json::str("self_check_ghost_formal")).with("type", Json::str("int")).with("where", Json::str("$"))
    } else if same(request, "plugins.ast-utils.execInsertGhostLemmaFunction") {
        Json::object().with("name", Json::str("self_check_ghost_lemma")).with("param", Json::str("n")).with("param_type", Json::str("int")).with("requires", Json::str("n >= 0")).with("decreases", Json::str("n")).with("assigns", Json::str("\\nothing")).with("ensures", Json::str("n >= 0"))
    } else if same(request, "plugins.ast-utils.execInsertGhostLoop") {
        Json::object().with("function", Json::str("main")).with("stmt", Json::num(1)).with("name", Json::str("self_check_ghost_loop")).with("type", Json::str("unsigned")).with("stop", Json::str("1")).with("invariant", Json::str("0 <= self_check_ghost_loop <= 1")).with("assigns", Json::str("self_check_ghost_loop")).with("variant", Json::str("1 - self_check_ghost_loop"))
    } else if same(request, "plugins.ast-utils.execRemoveAnnotationByLabel") {
        Json::object().with("function", Json::str("main")).with("label", Json::str("self_check_missing_label"))
    } else if same(request, "plugins.ast-utils.execInsertGhostStmt") {
        Json::object().with("function", Json::str("main")).with("stmt", Json::num(1)).with("op", Json::str("decl")).with("name", Json::str("self_check_ghost")).with("type", Json::str("int")).with("expr", Json::str("0"))
    } else if same(request, "plugins.ast-utils.getVcDetails") {
        Json::object().with("function", Json::str("main"))
    } else if same(request, "plugins.ast-utils.execDeleteSandbox") {
        Json::str("__sandbox__missing_00000000")
    } else if same(request, "plugins.ast-utils.printSource") || same(request, "plugins.ast-utils.dumpProject") {
        Json::str("")
    } else {
        Json::Null
    }
}

/// The name of a verb.
pub open spec fn kind_word(kind: ProbeKind) -> Seq<char> {
    match kind {
        ProbeKind::Get => "GET"@,
        ProbeKind::Put => "SET"@,
        ProbeKind::Exec => "EXEC"@,
    }
}

/// The name of a verb.
pub fn request_kind_name(kind: ProbeKind) -> (r: &'static str)
    ensures
        r@ == kind_word(kind),
{
    match kind {
        ProbeKind::Get => "GET",
        ProbeKind::Put => "SET",
        ProbeKind::Exec => "EXEC",
    }
}

// ---------------------------------------------------------------------------
// What a probe reports
// ---------------------------------------------------------------------------

/// The request that no tool depends on.
pub const DUMP_PROJECT: &'static str = "plugins.ast-utils.dumpProject";

/// Why no tool depends on it.
pub const DUMP_RATIONALE: &'static str =
    "Full F-CIL JSON export is available through ast-utils command-line export, not a user-facing MCP tool.";

/// How a request is offered, where no tool offers it, and why.
pub fn request_exposure(request: &str) -> (r: Option<(&'static str, &'static str)>)
    ensures
        match r {
            Some((exposure, rationale)) => request@ == DUMP_PROJECT@ && exposure@ == "cli_only"@
                && rationale@ == DUMP_RATIONALE@,
            None => request@ != DUMP_PROJECT@,
        },
{
    if same(request, DUMP_PROJECT) {
        Some(("cli_only", DUMP_RATIONALE))
    } else {
        None
    }
}

/// A report on a request, with how it is offered where no tool offers it.
pub open spec fn with_exposure(payload: JsonView, r: RequestView) -> JsonView {
    if r.request == DUMP_PROJECT@ {
        payload.with("mcp_exposure"@, JsonView::Str("cli_only"@)).with(
            "exposure_rationale"@,
            JsonView::Str(DUMP_RATIONALE@),
        )
    } else {
        payload
    }
}

/// A report on a request, with how it is offered where no tool offers it.
pub fn with_request_exposure(payload: Json, request: &RequiredRequest) -> (r: Json)
    ensures
        r@ == with_exposure(payload@, request@),
{
    match request_exposure(request.request) {
        Some((exposure, rationale)) => payload.with("mcp_exposure", Json::str(exposure)).with(
            "exposure_rationale",
            Json::str(rationale),
        ),
        None => payload,
    }
}

/// What every report on a request starts with.
pub open spec fn identity(r: RequestView) -> JsonView {
    JsonView::object().with("domain"@, JsonView::Str(r.domain)).with(
        "request"@,
        JsonView::Str(r.request),
    ).with("kind"@, JsonView::Str(kind_word(r.kind)))
}

/// What every report on a request starts with.
pub fn request_identity(request: &RequiredRequest) -> (r: Json)
    ensures
        r@ == identity(request@),
{
    Json::object().with("domain", Json::str(request.domain)).with(
        "request",
        Json::str(request.request),
    ).with("kind", Json::str(request_kind_name(request.kind)))
}

/// What came back of a probe.
#[derive(Debug, Clone, PartialEq, Eq)]
pub enum ProbeReply {
    /// An answer.
    Answered,
    /// The request is not known.
    Rejected,
    /// The server refused it with a message.
    ServerError { msg: String },
    /// It never got there, or back.
    Failed { error: String },
}

/// Whether a message says that a request is not known. A server that knows the request and
/// dislikes what the probe sent still proves that it is registered.
pub open spec fn says_unknown(msg: Seq<char>) -> bool {
    let lower = ascii_lower(msg);
    occurs(lower, "unknown request"@) || occurs(lower, "request not found"@) || occurs(
        lower,
        "unbound request"@,
    )
}

/// What a probe says of a request, and the error it reports.
pub open spec fn probe_outcome(reply: ProbeReply) -> (Seq<char>, Option<Seq<char>>) {
    match reply {
        ProbeReply::Answered => ("present"@, None),
        ProbeReply::Rejected => ("missing"@, Some("request rejected"@)),
        ProbeReply::ServerError { msg } => (
            if says_unknown(msg@) {
                "missing"@
            } else {
                "present"@
            },
            Some(msg@),
        ),
        ProbeReply::Failed { error } => ("error"@, Some(error@)),
    }
}

/// The report on a request that was probed.
pub open spec fn probe_report(r: RequestView, reply: ProbeReply) -> JsonView {
    let (status, error) = probe_outcome(reply);
    let payload = identity(r).with("status"@, JsonView::Str(status));
    with_exposure(
        match error {
            Some(e) => payload.with("error"@, JsonView::Str(e)),
            None => payload,
        },
        r,
    )
}

/// The report on a request that was probed.
pub fn request_probe_status(request: &RequiredRequest, reply: &ProbeReply) -> (r: Json)
    ensures
        r@ == probe_report(request@, *reply),
{
    let (status, error): (&'static str, Option<&str>) = match reply {
        ProbeReply::Answered => ("present", None),
        ProbeReply::Rejected => ("missing", Some("request rejected")),
        ProbeReply::ServerError { msg } => {
            let lower = to_ascii_lowercase(msg.as_str());
            let lower = lower.as_str();
            if contains(lower, "unknown request") || contains(lower, "request not found")
                || contains(lower, "unbound request") {
                ("missing", Some(msg.as_str()))
            } else {
                ("present", Some(msg.as_str()))
            }
        },
        ProbeReply::Failed { error } => ("error", Some(error.as_str())),
    };
    let payload = request_identity(request).with("status", Json::str(status));
    let payload = match error {
        Some(e) => payload.with("error", Json::str(e)),
        None => payload,
    };
    with_request_exposure(payload, request)
}

/// The report on a request that was not probed.
pub open spec fn unprobed_report(r: RequestView, reason: Seq<char>) -> JsonView {
    with_exposure(
        identity(r).with("status"@, JsonView::Str("not_probed"@)).with(
            "reason"@,
            JsonView::Str(reason),
        ),
        r,
    )
}

/// The report on a request that was not probed.
pub fn not_probed_status(request: &RequiredRequest, reason: &str) -> (r: Json)
    ensures
        r@ == unprobed_report(request@, reason@),
{
    let payload = request_identity(request).with("status", Json::str("not_probed")).with(
        "reason",
        Json::str(reason),
    );
    with_request_exposure(payload, request)
}

/// The reports on requests that were not probed.
pub open spec fn unprobed_reports(rs: Seq<RequestView>, reason: Seq<char>) -> Seq<JsonView> {
    rs.map_values(|r: RequestView| unprobed_report(r, reason))
}

/// The reports on requests that were not probed.
pub fn not_probed_requests(requests: &Vec<RequiredRequest>, reason: &str) -> (r: Vec<Json>)
    ensures
        crate::json::models(r@) == unprobed_reports(request_views(requests@), reason@),
{
    let mut out: Vec<Json> = Vec::new();
    let mut i: usize = 0;
    while i < requests.len()
        invariant
            i <= requests@.len(),
            out@.len() == i,
            forall|k: int|
                0 <= k < i ==> (#[trigger] out@[k])@ == unprobed_report(requests@[k]@, reason@),
        decreases requests@.len() - i,
    {
        out.push(not_probed_status(&requests[i], reason));
        i = i + 1;
    }
    assert(crate::json::models(out@) =~= unprobed_reports(request_views(requests@), reason@));
    out
}

/// Both reports, of what is required and of what the plug-in registers, when nothing was probed.
/// The parameters belong to what is required whether or not they were probed.
pub fn not_probed_reports(reason: &str, readback: &Vec<&'static str>) -> (r: (Vec<Json>, Vec<Json>))
    ensures
        crate::json::models(r.0@) == unprobed_reports(
            required() + parameters(slices(readback@)),
            reason@,
        ),
        crate::json::models(r.1@) == unprobed_reports(registered(), reason@),
{
    let mut all = required_requests();
    let ghost first = all@;
    let mut more = parameter_requests(readback);
    let ghost second = more@;
    all.append(&mut more);
    assert(request_views(all@) =~= request_views(first) + request_views(second));
    (
        not_probed_requests(&all, reason),
        not_probed_requests(&ast_utils_registered_requests(), reason),
    )
}

// ---------------------------------------------------------------------------
// The conversation of a probe
// ---------------------------------------------------------------------------

/// What a probe does about one request.
pub enum ProbeStep {
    /// Nothing: this is its report.
    Skip(Json),
    /// It sends the request, waits so many milliseconds, and may take silence for an answer.
    Send { id: String, data: Json, timeout_ms: u64, accept_on_timeout: bool },
}

/// Whether a step is the one for a request: one that no tool depends on is skipped, and only a
/// getter has to answer, and has ten times as long to do so.
pub open spec fn step_for(
    step: ProbeStep,
    r: RequestView,
    id_prefix: Seq<char>,
    index: int,
) -> bool {
    match step {
        ProbeStep::Skip(report) => r.request == DUMP_PROJECT@ && report@ == unprobed_report(
            r,
            "not a public MCP dependency"@,
        ),
        ProbeStep::Send { id, data, timeout_ms, accept_on_timeout } => {
            &&& r.request != DUMP_PROJECT@
            &&& id@ == id_prefix + "."@ + decimal(index as nat)
            &&& data@ == probe_data(r.request)
            &&& timeout_ms == (if r.kind == ProbeKind::Get {
                5000u64
            } else {
                500
            })
            &&& accept_on_timeout == (r.kind != ProbeKind::Get)
        },
    }
}

/// What a probe does about the request at a place.
pub fn probe_step(request: &RequiredRequest, id_prefix: &str, index: usize) -> (r: ProbeStep)
    ensures
        step_for(r, request@, id_prefix@, index as int),
{
    if request_exposure(request.request).is_some() {
        return ProbeStep::Skip(not_probed_status(request, "not a public MCP dependency"));
    }
    let get = request.kind == ProbeKind::Get;
    ProbeStep::Send {
        id: cat3(id_prefix, ".", decimal_text(index as u64).as_str()),
        data: probe_payload(request.request),
        timeout_ms: if get {
            5000
        } else {
            500
        },
        accept_on_timeout: !get,
    }
}

/// What arrived while a probe waits.
pub enum ProbeFrame {
    /// Nothing, and the time is up. This is the error that says so.
    TimedOut { error: String },
    /// The channel failed, or sent what cannot be read.
    Broken { error: String },
    /// An answer to a request.
    Data { id: String },
    /// A refusal of a request, with a message.
    Error { id: String, msg: String },
    /// A request was not known.
    Rejected { id: String },
    /// Something that belongs to no request.
    Other,
}

/// What a probe makes of what arrived, if that ends its wait. What answers another request is
/// passed over.
pub open spec fn frame_reply(
    frame: ProbeFrame,
    request_id: Seq<char>,
    accept_on_timeout: bool,
) -> Option<ProbeReply> {
    match frame {
        ProbeFrame::TimedOut { error } => Some(
            if accept_on_timeout {
                ProbeReply::Answered
            } else {
                ProbeReply::Failed { error }
            },
        ),
        ProbeFrame::Broken { error } => Some(ProbeReply::Failed { error }),
        ProbeFrame::Data { id } => if id@ == request_id {
            Some(ProbeReply::Answered)
        } else {
            None
        },
        ProbeFrame::Error { id, msg } => if id@ == request_id {
            Some(ProbeReply::ServerError { msg })
        } else {
            None
        },
        ProbeFrame::Rejected { id } => if id@ == request_id {
            Some(ProbeReply::Rejected)
        } else {
            None
        },
        ProbeFrame::Other => None,
    }
}

/// What a probe makes of what arrived, if that ends its wait.
pub fn probe_frame(frame: ProbeFrame, request_id: &str, accept_on_timeout: bool) -> (r: Option<
    ProbeReply,
>)
    ensures
        r == frame_reply(frame, request_id@, accept_on_timeout),
{
    match frame {
        ProbeFrame::TimedOut { error } => Some(
            if accept_on_timeout {
                ProbeReply::Answered
            } else {
                ProbeReply::Failed { error }
            },
        ),
        ProbeFrame::Broken { error } => Some(ProbeReply::Failed { error }),
        ProbeFrame::Data { id } => if same(id.as_str(), request_id) {
            Some(ProbeReply::Answered)
        } else {
            None
        },
        ProbeFrame::Error { id, msg } => if same(id.as_str(), request_id) {
            Some(ProbeReply::ServerError { msg })
        } else {
            None
        },
        ProbeFrame::Rejected { id } => if same(id.as_str(), request_id) {
            Some(ProbeReply::Rejected)
        } else {
            None
        },
        ProbeFrame::Other => None,
    }
}

// ---------------------------------------------------------------------------
// What holds of probes
// ---------------------------------------------------------------------------

/// A request is there where Frama-C answers it, or refuses it with a message that does not say it is
/// unknown; it is missing where it is rejected or said to be unknown; else the probe failed.
pub proof fn law_what_a_reply_says_of_a_request(msg: String, error: String)
    ensures
        probe_outcome(ProbeReply::Answered) == ("present"@, None::<Seq<char>>),
        probe_outcome(ProbeReply::Rejected) == ("missing"@, Some("request rejected"@)),
        occurs(ascii_lower(msg@), "unknown request"@) ==> probe_outcome(
            ProbeReply::ServerError { msg },
        ) == ("missing"@, Some(msg@)),
        occurs(ascii_lower(msg@), "request not found"@) ==> probe_outcome(
            ProbeReply::ServerError { msg },
        ) == ("missing"@, Some(msg@)),
        occurs(ascii_lower(msg@), "unbound request"@) ==> probe_outcome(
            ProbeReply::ServerError { msg },
        ) == ("missing"@, Some(msg@)),
        !occurs(ascii_lower(msg@), "unknown request"@) && !occurs(
            ascii_lower(msg@),
            "request not found"@,
        ) && !occurs(ascii_lower(msg@), "unbound request"@) ==> probe_outcome(
            ProbeReply::ServerError { msg },
        ) == ("present"@, Some(msg@)),
        probe_outcome(ProbeReply::Failed { error }) == ("error"@, Some(error@)),
{
}

/// The report on a request names it, its kind, and what came of it.
pub proof fn law_a_probe_is_reported(r: RequestView, reply: ProbeReply, reason: Seq<char>)
    ensures
        ({
            let p = probe_report(r, reply);
            let (status, error) = probe_outcome(reply);
            &&& p.text("domain"@) == Some(r.domain)
            &&& p.text("request"@) == Some(r.request)
            &&& r.kind == ProbeKind::Get ==> p.text("kind"@) == Some("GET"@)
            &&& r.kind == ProbeKind::Put ==> p.text("kind"@) == Some("SET"@)
            &&& r.kind == ProbeKind::Exec ==> p.text("kind"@) == Some("EXEC"@)
            &&& p.text("status"@) == Some(status)
            &&& p.text("error"@) == error
            &&& p.text("mcp_exposure"@) == (if r.request == "plugins.ast-utils.dumpProject"@ {
                Some("cli_only"@)
            } else {
                None
            })
        }),
        ({
            let p = unprobed_report(r, reason);
            &&& p.text("domain"@) == Some(r.domain)
            &&& p.text("request"@) == Some(r.request)
            &&& p.text("status"@) == Some("not_probed"@)
            &&& p.text("reason"@) == Some(reason)
        }),
{
    broadcast use crate::json::group_object_reads;

    reveal_strlit("domain");
    reveal_strlit("request");
    reveal_strlit("kind");
    reveal_strlit("status");
    reveal_strlit("error");
    reveal_strlit("reason");
    reveal_strlit("mcp_exposure");
    reveal_strlit("exposure_rationale");
    assert("domain"@.len() == 6 && "request"@.len() == 7);
    assert("kind"@.len() == 4 && "status"@.len() == 6);
    assert("error"@.len() == 5 && "reason"@.len() == 6);
    assert("mcp_exposure"@.len() == 12 && "exposure_rationale"@.len() == 18);
    assert("domain"@[0] != "status"@[0]);
    assert("domain"@[0] != "reason"@[0]);
    assert("status"@[0] != "reason"@[0]);
}

/// Only what belongs to the request answers it; where silence is taken for an answer it is one, and
/// else it is a failure.
pub proof fn law_what_answers_a_request(id: String, msg: String, error: String, request_id: Seq<char>)
    ensures
        id@ == request_id ==> frame_reply(ProbeFrame::Data { id }, request_id, false) == Some(
            ProbeReply::Answered,
        ),
        id@ != request_id ==> frame_reply(ProbeFrame::Data { id }, request_id, false) is None,
        id@ == request_id ==> frame_reply(ProbeFrame::Error { id, msg }, request_id, false) == Some(
            ProbeReply::ServerError { msg },
        ),
        id@ != request_id ==> frame_reply(ProbeFrame::Error { id, msg }, request_id, false) is None,
        id@ == request_id ==> frame_reply(ProbeFrame::Rejected { id }, request_id, true) == Some(
            ProbeReply::Rejected,
        ),
        id@ != request_id ==> frame_reply(ProbeFrame::Rejected { id }, request_id, true) is None,
        frame_reply(ProbeFrame::TimedOut { error }, request_id, true) == Some(ProbeReply::Answered),
        frame_reply(ProbeFrame::TimedOut { error }, request_id, false) == Some(
            ProbeReply::Failed { error },
        ),
        frame_reply(ProbeFrame::Broken { error }, request_id, true) == Some(
            ProbeReply::Failed { error },
        ),
        frame_reply(ProbeFrame::Other, request_id, true) is None,
{
}

/// A request that reads is waited for; one that changes something is not, and its silence counts as
/// an answer.
pub proof fn law_how_a_request_is_sent(
    step: ProbeStep,
    r: RequestView,
    id_prefix: Seq<char>,
    index: int,
)
    requires
        step_for(step, r, id_prefix, index),
    ensures
        step is Skip <==> r.request == "plugins.ast-utils.dumpProject"@,
        step is Send ==> step->id@ == id_prefix + "."@ + decimal(index as nat),
        step is Send && r.kind == ProbeKind::Get ==> step->timeout_ms == 5000
            && !step->accept_on_timeout,
        step is Send && r.kind != ProbeKind::Get ==> step->timeout_ms == 500
            && step->accept_on_timeout,
        step is Skip ==> step->Skip_0@.text("reason"@) == Some("not a public MCP dependency"@),
{
    law_a_probe_is_reported(r, ProbeReply::Answered, "not a public MCP dependency"@);
}

proof fn lemma_probed_live(s: Seq<(Seq<char>, ProbeKind, bool)>, i: int)
    requires
        0 <= i < s.len(),
        s[i].2,
    ensures
        probed_live(s).contains(request("ast-utils"@, s[i].0, s[i].1)),
    decreases s.len(),
{
    let q = request("ast-utils"@, s[i].0, s[i].1);
    if i == s.len() - 1 {
        let r = probed_live(s);
        assert(r[r.len() - 1] == q);
    } else {
        lemma_probed_live(s.drop_last(), i);
        let before = probed_live(s.drop_last());
        let k = choose|k: int| 0 <= k < before.len() && before[k] == q;
        assert(probed_live(s)[k] == q);
    }
}

proof fn lemma_only_live(s: Seq<(Seq<char>, ProbeKind, bool)>, k: int)
    requires
        0 <= k < probed_live(s).len(),
    ensures
        exists|i: int|
            0 <= i < s.len() && (#[trigger] s[i]).2 && probed_live(s)[k] == request(
                "ast-utils"@,
                s[i].0,
                s[i].1,
            ),
    decreases s.len(),
{
    let t = s.drop_last();
    if s.last().2 && k == probed_live(s).len() - 1 {
        assert(s[s.len() - 1].2);
    } else {
        lemma_only_live(t, k);
        let i = choose|i: int|
            0 <= i < t.len() && (#[trigger] t[i]).2 && probed_live(t)[k] == request(
                "ast-utils"@,
                t[i].0,
                t[i].1,
            );
        assert(s[i].2);
    }
}

/// The requests of the plugin that are probed are those that can be probed live, under its domain.
pub proof fn law_requests_of_the_plugin_are_probed_where_they_can_be(
    s: Seq<(Seq<char>, ProbeKind, bool)>,
    i: int,
    k: int,
)
    ensures
        0 <= i < s.len() && s[i].2 ==> probed_live(s).contains(
            request("ast-utils"@, s[i].0, s[i].1),
        ),
        0 <= k < probed_live(s).len() ==> exists|j: int|
            0 <= j < s.len() && (#[trigger] s[j]).2 && probed_live(s)[k] == request(
                "ast-utils"@,
                s[j].0,
                s[j].1,
            ),
{
    if 0 <= i < s.len() && s[i].2 {
        lemma_probed_live(s, i);
    }
    if 0 <= k < probed_live(s).len() {
        lemma_only_live(s, k);
    }
}

/// A request of Frama-C is named after the part that answers it, and one that sets something says
/// so in its name.
pub proof fn law_a_request_is_named_after_its_part(i: int)
    ensures
        0 <= i < core_table().len() ==> named_after(core_table()[i]),
        0 <= i < parameter_table().len() ==> named_after(parameter_table()[i]),
{
    lemma_core_names(i);
    lemma_parameter_names(i);
}

/// Whether the name of a request begins with the part that answers it, and says that it sets
/// something where it does.
pub open spec fn named_after(r: RequestView) -> bool {
    &&& r.domain == "kernel"@ ==> begins(r.request, "kernel."@)
    &&& r.domain == "callgraph"@ ==> begins(r.request, "plugins.callgraph."@)
    &&& r.domain == "eva"@ ==> begins(r.request, "plugins.eva."@)
    &&& r.domain == "wp"@ ==> begins(r.request, "plugins.wp."@)
    &&& r.domain == "kernel"@ || r.domain == "callgraph"@ || r.domain == "eva"@ || r.domain == "wp"@
    &&& r.kind == ProbeKind::Put ==> occurs(r.request, ".set"@)
}

proof fn lemma_core_names(i: int)
    ensures
        0 <= i < core_table().len() ==> named_after(core_table()[i]),
{
    reveal_strlit("plugins.callgraph.");
    reveal_strlit("plugins.eva.");
    reveal_strlit("kernel.");
    reveal_strlit("plugins.wp.");
    reveal_strlit(".set");
    reveal_strlit("callgraph");
    reveal_strlit("eva");
    reveal_strlit("kernel");
    reveal_strlit("wp");
    assert("callgraph"@.len() == 9 && "eva"@.len() == 3);
    assert("kernel"@.len() == 6 && "wp"@.len() == 2);
    if i == 0 {
        reveal_strlit("kernel.ast.getFiles");
        assert("kernel.ast.getFiles"@.subrange(0, 7) =~= "kernel."@);
    }
    if i == 1 {
        reveal_strlit("kernel.ast.fetchFunctions");
        assert("kernel.ast.fetchFunctions"@.subrange(0, 7) =~= "kernel."@);
    }
    if i == 2 {
        reveal_strlit("kernel.ast.fetchGlobals");
        assert("kernel.ast.fetchGlobals"@.subrange(0, 7) =~= "kernel."@);
    }
    if i == 3 {
        reveal_strlit("kernel.ast.reloadFunctions");
        assert("kernel.ast.reloadFunctions"@.subrange(0, 7) =~= "kernel."@);
    }
    if i == 4 {
        reveal_strlit("kernel.ast.reloadGlobals");
        assert("kernel.ast.reloadGlobals"@.subrange(0, 7) =~= "kernel."@);
    }
    if i == 5 {
        reveal_strlit("kernel.ast.getDeclarations");
        assert("kernel.ast.getDeclarations"@.subrange(0, 7) =~= "kernel."@);
    }
    if i == 6 {
        reveal_strlit("kernel.ast.printDeclaration");
        assert("kernel.ast.printDeclaration"@.subrange(0, 7) =~= "kernel."@);
    }
    if i == 7 {
        reveal_strlit("kernel.properties.fetchStatus");
        assert("kernel.properties.fetchStatus"@.subrange(0, 7) =~= "kernel."@);
    }
    if i == 8 {
        reveal_strlit("kernel.properties.reloadStatus");
        assert("kernel.properties.reloadStatus"@.subrange(0, 7) =~= "kernel."@);
    }
    if i == 9 {
        reveal_strlit("kernel.services.setLogs");
        assert("kernel.services.setLogs"@.subrange(0, 7) =~= "kernel."@);
        assert("kernel.services.setLogs"@.subrange(15, 19) =~= ".set"@);
        assert(crate::text::stands_at("kernel.services.setLogs"@, ".set"@, 15));
    }
    if i == 10 {
        reveal_strlit("kernel.services.getLogs");
        assert("kernel.services.getLogs"@.subrange(0, 7) =~= "kernel."@);
    }
    if i == 11 {
        reveal_strlit("plugins.callgraph.compute");
        assert("plugins.callgraph.compute"@.subrange(0, 18) =~= "plugins.callgraph."@);
    }
    if i == 12 {
        reveal_strlit("plugins.callgraph.getCallgraph");
        assert("plugins.callgraph.getCallgraph"@.subrange(0, 18) =~= "plugins.callgraph."@);
    }
    if i == 13 {
        reveal_strlit("plugins.eva.analysis.compute");
        assert("plugins.eva.analysis.compute"@.subrange(0, 12) =~= "plugins.eva."@);
    }
    if i == 14 {
        reveal_strlit("plugins.eva.analysis.getComputationState");
        assert("plugins.eva.analysis.getComputationState"@.subrange(0, 12) =~= "plugins.eva."@);
    }
    if i == 15 {
        reveal_strlit("plugins.eva.stats.getProgramStats");
        assert("plugins.eva.stats.getProgramStats"@.subrange(0, 12) =~= "plugins.eva."@);
    }
    if i == 16 {
        reveal_strlit("plugins.eva.ast.getCallers");
        assert("plugins.eva.ast.getCallers"@.subrange(0, 12) =~= "plugins.eva."@);
    }
    if i == 17 {
        reveal_strlit("plugins.eva.values.getValues");
        assert("plugins.eva.values.getValues"@.subrange(0, 12) =~= "plugins.eva."@);
    }
    if i == 18 {
        reveal_strlit("plugins.wp.reloadGoals");
        assert("plugins.wp.reloadGoals"@.subrange(0, 11) =~= "plugins.wp."@);
    }
    if i == 19 {
        reveal_strlit("plugins.wp.fetchGoals");
        assert("plugins.wp.fetchGoals"@.subrange(0, 11) =~= "plugins.wp."@);
    }
    if i == 20 {
        reveal_strlit("plugins.wp.getScheduledTasks");
        assert("plugins.wp.getScheduledTasks"@.subrange(0, 11) =~= "plugins.wp."@);
    }
    if i == 21 {
        reveal_strlit("plugins.wp.getProvers");
        assert("plugins.wp.getProvers"@.subrange(0, 11) =~= "plugins.wp."@);
    }
    if i == 22 {
        reveal_strlit("plugins.wp.getTimeout");
        assert("plugins.wp.getTimeout"@.subrange(0, 11) =~= "plugins.wp."@);
    }
    if i == 23 {
        reveal_strlit("plugins.wp.setTimeout");
        assert("plugins.wp.setTimeout"@.subrange(0, 11) =~= "plugins.wp."@);
        assert("plugins.wp.setTimeout"@.subrange(10, 14) =~= ".set"@);
        assert(crate::text::stands_at("plugins.wp.setTimeout"@, ".set"@, 10));
    }
    if i == 24 {
        reveal_strlit("plugins.wp.startProofs");
        assert("plugins.wp.startProofs"@.subrange(0, 11) =~= "plugins.wp."@);
    }
}

proof fn lemma_parameter_names(i: int)
    ensures
        0 <= i < parameter_table().len() ==> named_after(parameter_table()[i]),
{
    reveal_strlit("plugins.callgraph.");
    reveal_strlit("plugins.eva.");
    reveal_strlit("kernel.");
    reveal_strlit("plugins.wp.");
    reveal_strlit(".set");
    reveal_strlit("callgraph");
    reveal_strlit("eva");
    reveal_strlit("kernel");
    reveal_strlit("wp");
    assert("callgraph"@.len() == 9 && "eva"@.len() == 3);
    assert("kernel"@.len() == 6 && "wp"@.len() == 2);
    if i == 0 {
        reveal_strlit("kernel.parameters.setMain");
        assert("kernel.parameters.setMain"@.subrange(0, 7) =~= "kernel."@);
        assert("kernel.parameters.setMain"@.subrange(17, 21) =~= ".set"@);
        assert(crate::text::stands_at("kernel.parameters.setMain"@, ".set"@, 17));
    }
    if i == 1 {
        reveal_strlit("kernel.parameters.setEvaPrecision");
        assert("kernel.parameters.setEvaPrecision"@.subrange(0, 7) =~= "kernel."@);
        assert("kernel.parameters.setEvaPrecision"@.subrange(17, 21) =~= ".set"@);
        assert(crate::text::stands_at("kernel.parameters.setEvaPrecision"@, ".set"@, 17));
    }
    if i == 2 {
        reveal_strlit("kernel.parameters.setEvaSlevel");
        assert("kernel.parameters.setEvaSlevel"@.subrange(0, 7) =~= "kernel."@);
        assert("kernel.parameters.setEvaSlevel"@.subrange(17, 21) =~= ".set"@);
        assert(crate::text::stands_at("kernel.parameters.setEvaSlevel"@, ".set"@, 17));
    }
    if i == 3 {
        reveal_strlit("kernel.parameters.setEvaIlevel");
        assert("kernel.parameters.setEvaIlevel"@.subrange(0, 7) =~= "kernel."@);
        assert("kernel.parameters.setEvaIlevel"@.subrange(17, 21) =~= ".set"@);
        assert(crate::text::stands_at("kernel.parameters.setEvaIlevel"@, ".set"@, 17));
    }
    if i == 4 {
        reveal_strlit("kernel.ast.compute");
        assert("kernel.ast.compute"@.subrange(0, 7) =~= "kernel."@);
    }
    if i == 5 {
        reveal_strlit("kernel.ast.setFiles");
        assert("kernel.ast.setFiles"@.subrange(0, 7) =~= "kernel."@);
        assert("kernel.ast.setFiles"@.subrange(10, 14) =~= ".set"@);
        assert(crate::text::stands_at("kernel.ast.setFiles"@, ".set"@, 10));
    }
}

/// A request of the plugin that reads is called so, and no other is.
pub proof fn law_a_request_of_the_plugin_says_whether_it_reads(i: int)
    requires
        0 <= i < plugin_table().len(),
    ensures
        begins(plugin_table()[i].0, "plugins.ast-utils."@),
        begins(plugin_table()[i].0, "plugins.ast-utils.get"@) ==> plugin_table()[i].1
            == ProbeKind::Get,
        plugin_table()[i].1 == ProbeKind::Exec ==> begins(
            plugin_table()[i].0,
            "plugins.ast-utils.exec"@,
        ),
        plugin_table()[i].1 != ProbeKind::Put,
{
    reveal_strlit("plugins.ast-utils.");
    reveal_strlit("plugins.ast-utils.get");
    reveal_strlit("plugins.ast-utils.exec");
    if i == 0 {
        reveal_strlit("plugins.ast-utils.getFunctionAst");
        assert("plugins.ast-utils.getFunctionAst"@.subrange(0, 18) =~= "plugins.ast-utils."@);
    }
    if i == 1 {
        reveal_strlit("plugins.ast-utils.getCilContext");
        assert("plugins.ast-utils.getCilContext"@.subrange(0, 18) =~= "plugins.ast-utils."@);
    }
    if i == 2 {
        reveal_strlit("plugins.ast-utils.getContractContext");
        assert("plugins.ast-utils.getContractContext"@.subrange(0, 18) =~= "plugins.ast-utils."@);
    }
    if i == 3 {
        reveal_strlit("plugins.ast-utils.getClauseOrigin");
        assert("plugins.ast-utils.getClauseOrigin"@.subrange(0, 18) =~= "plugins.ast-utils."@);
    }
    if i == 4 {
        reveal_strlit("plugins.ast-utils.getWriteEffects");
        assert("plugins.ast-utils.getWriteEffects"@.subrange(0, 18) =~= "plugins.ast-utils."@);
    }
    if i == 5 {
        reveal_strlit("plugins.ast-utils.getLoopEffects");
        assert("plugins.ast-utils.getLoopEffects"@.subrange(0, 18) =~= "plugins.ast-utils."@);
    }
    if i == 6 {
        reveal_strlit("plugins.ast-utils.getLogicDeps");
        assert("plugins.ast-utils.getLogicDeps"@.subrange(0, 18) =~= "plugins.ast-utils."@);
    }
    if i == 7 {
        reveal_strlit("plugins.ast-utils.getRteObligations");
        assert("plugins.ast-utils.getRteObligations"@.subrange(0, 18) =~= "plugins.ast-utils."@);
    }
    if i == 8 {
        reveal_strlit("plugins.ast-utils.getAcslValidation");
        assert("plugins.ast-utils.getAcslValidation"@.subrange(0, 18) =~= "plugins.ast-utils."@);
    }
    if i == 9 {
        reveal_strlit("plugins.ast-utils.execSetWpConfig");
        assert("plugins.ast-utils.execSetWpConfig"@.subrange(0, 18) =~= "plugins.ast-utils."@);
        assert("plugins.ast-utils.execSetWpConfig"@.subrange(0, 22) =~= "plugins.ast-utils.exec"@);
        assert("plugins.ast-utils.execSetWpConfig"@.subrange(0, 21)[18] != "plugins.ast-utils.get"@[18]);
    }
    if i == 10 {
        reveal_strlit("plugins.ast-utils.execAddAnnotation");
        assert("plugins.ast-utils.execAddAnnotation"@.subrange(0, 18) =~= "plugins.ast-utils."@);
        assert("plugins.ast-utils.execAddAnnotation"@.subrange(0, 22) =~= "plugins.ast-utils.exec"@);
        assert("plugins.ast-utils.execAddAnnotation"@.subrange(0, 21)[18] != "plugins.ast-utils.get"@[18]);
    }
    if i == 11 {
        reveal_strlit("plugins.ast-utils.execAddGlobalAcsl");
        assert("plugins.ast-utils.execAddGlobalAcsl"@.subrange(0, 18) =~= "plugins.ast-utils."@);
        assert("plugins.ast-utils.execAddGlobalAcsl"@.subrange(0, 22) =~= "plugins.ast-utils.exec"@);
        assert("plugins.ast-utils.execAddGlobalAcsl"@.subrange(0, 21)[18] != "plugins.ast-utils.get"@[18]);
    }
    if i == 12 {
        reveal_strlit("plugins.ast-utils.execRemoveGlobalAcsl");
        assert("plugins.ast-utils.execRemoveGlobalAcsl"@.subrange(0, 18) =~= "plugins.ast-utils."@);
        assert("plugins.ast-utils.execRemoveGlobalAcsl"@.subrange(0, 22) =~= "plugins.ast-utils.exec"@);
        assert("plugins.ast-utils.execRemoveGlobalAcsl"@.subrange(0, 21)[18] != "plugins.ast-utils.get"@[18]);
    }
    if i == 13 {
        reveal_strlit("plugins.ast-utils.execInsertGhostGlobal");
        assert("plugins.ast-utils.execInsertGhostGlobal"@.subrange(0, 18) =~= "plugins.ast-utils."@);
        assert("plugins.ast-utils.execInsertGhostGlobal"@.subrange(0, 22) =~= "plugins.ast-utils.exec"@);
        assert("plugins.ast-utils.execInsertGhostGlobal"@.subrange(0, 21)[18] != "plugins.ast-utils.get"@[18]);
    }
    if i == 14 {
        reveal_strlit("plugins.ast-utils.execInsertGhostFormal");
        assert("plugins.ast-utils.execInsertGhostFormal"@.subrange(0, 18) =~= "plugins.ast-utils."@);
        assert("plugins.ast-utils.execInsertGhostFormal"@.subrange(0, 22) =~= "plugins.ast-utils.exec"@);
        assert("plugins.ast-utils.execInsertGhostFormal"@.subrange(0, 21)[18] != "plugins.ast-utils.get"@[18]);
    }
    if i == 15 {
        reveal_strlit("plugins.ast-utils.execInsertGhostLemmaFunction");
        assert("plugins.ast-utils.execInsertGhostLemmaFunction"@.subrange(0, 18) =~= "plugins.ast-utils."@);
        assert("plugins.ast-utils.execInsertGhostLemmaFunction"@.subrange(0, 22) =~= "plugins.ast-utils.exec"@);
        assert("plugins.ast-utils.execInsertGhostLemmaFunction"@.subrange(0, 21)[18] != "plugins.ast-utils.get"@[18]);
    }
    if i == 16 {
        reveal_strlit("plugins.ast-utils.execInsertGhostLoop");
        assert("plugins.ast-utils.execInsertGhostLoop"@.subrange(0, 18) =~= "plugins.ast-utils."@);
        assert("plugins.ast-utils.execInsertGhostLoop"@.subrange(0, 22) =~= "plugins.ast-utils.exec"@);
        assert("plugins.ast-utils.execInsertGhostLoop"@.subrange(0, 21)[18] != "plugins.ast-utils.get"@[18]);
    }
    if i == 17 {
        reveal_strlit("plugins.ast-utils.execRemoveAnnotations");
        assert("plugins.ast-utils.execRemoveAnnotations"@.subrange(0, 18) =~= "plugins.ast-utils."@);
        assert("plugins.ast-utils.execRemoveAnnotations"@.subrange(0, 22) =~= "plugins.ast-utils.exec"@);
        assert("plugins.ast-utils.execRemoveAnnotations"@.subrange(0, 21)[18] != "plugins.ast-utils.get"@[18]);
    }
    if i == 18 {
        reveal_strlit("plugins.ast-utils.execRemoveAnnotationByLabel");
        assert("plugins.ast-utils.execRemoveAnnotationByLabel"@.subrange(0, 18) =~= "plugins.ast-utils."@);
        assert("plugins.ast-utils.execRemoveAnnotationByLabel"@.subrange(0, 22) =~= "plugins.ast-utils.exec"@);
        assert("plugins.ast-utils.execRemoveAnnotationByLabel"@.subrange(0, 21)[18] != "plugins.ast-utils.get"@[18]);
    }
    if i == 19 {
        reveal_strlit("plugins.ast-utils.execInsertGhostStmt");
        assert("plugins.ast-utils.execInsertGhostStmt"@.subrange(0, 18) =~= "plugins.ast-utils."@);
        assert("plugins.ast-utils.execInsertGhostStmt"@.subrange(0, 22) =~= "plugins.ast-utils.exec"@);
        assert("plugins.ast-utils.execInsertGhostStmt"@.subrange(0, 21)[18] != "plugins.ast-utils.get"@[18]);
    }
    if i == 20 {
        reveal_strlit("plugins.ast-utils.getVcDetails");
        assert("plugins.ast-utils.getVcDetails"@.subrange(0, 18) =~= "plugins.ast-utils."@);
    }
    if i == 21 {
        reveal_strlit("plugins.ast-utils.getMarkerFunction");
        assert("plugins.ast-utils.getMarkerFunction"@.subrange(0, 18) =~= "plugins.ast-utils."@);
    }
    if i == 22 {
        reveal_strlit("plugins.ast-utils.execCreateSandbox");
        assert("plugins.ast-utils.execCreateSandbox"@.subrange(0, 18) =~= "plugins.ast-utils."@);
        assert("plugins.ast-utils.execCreateSandbox"@.subrange(0, 22) =~= "plugins.ast-utils.exec"@);
        assert("plugins.ast-utils.execCreateSandbox"@.subrange(0, 21)[18] != "plugins.ast-utils.get"@[18]);
    }
    if i == 23 {
        reveal_strlit("plugins.ast-utils.execDeleteSandbox");
        assert("plugins.ast-utils.execDeleteSandbox"@.subrange(0, 18) =~= "plugins.ast-utils."@);
        assert("plugins.ast-utils.execDeleteSandbox"@.subrange(0, 22) =~= "plugins.ast-utils.exec"@);
        assert("plugins.ast-utils.execDeleteSandbox"@.subrange(0, 21)[18] != "plugins.ast-utils.get"@[18]);
    }
    if i == 24 {
        reveal_strlit("plugins.ast-utils.extractFunctionWithDeps");
        assert("plugins.ast-utils.extractFunctionWithDeps"@.subrange(0, 18) =~= "plugins.ast-utils."@);
    }
    if i == 25 {
        reveal_strlit("plugins.ast-utils.execExtractAnnotations");
        assert("plugins.ast-utils.execExtractAnnotations"@.subrange(0, 18) =~= "plugins.ast-utils."@);
    }
    if i == 26 {
        reveal_strlit("plugins.ast-utils.printSource");
        assert("plugins.ast-utils.printSource"@.subrange(0, 18) =~= "plugins.ast-utils."@);
    }
    if i == 27 {
        reveal_strlit("plugins.ast-utils.dumpProject");
        assert("plugins.ast-utils.dumpProject"@.subrange(0, 18) =~= "plugins.ast-utils."@);
    }
}

} // verus!
