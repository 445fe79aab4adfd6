//! The settings of a WP run: what is asked for, what the environment says, and what is used.

use crate::error::{ToolError, ToolErrorView};
use crate::json::{
    collected, entries, lemma_array_view, lemma_object_view, lemma_take_next, models, opt_value,
    Json, JsonView,
};
use crate::order::{sort_unique, sorted_unique};
use crate::outside::{debug_quoted, debug_text, json_text};
use crate::reload::text_items;
use crate::text::{
    ascii_lower, begins, cat2, cat3, cat4, decimal, decimal_text, join, join_spec, opt_string,
    opt_text, own_all, owned, parse_spec, parse_u32, pieces, same, same_ignoring_case, slices,
    split_char, split_once, split_once_spec, texts, trim, trim_spec,
};
use crate::triage::{
    run_triage, tasks_failure_kind, wp_failure_kind_from_tasks,
    wp_timeout_triage_from_tasks_and_report,
};
use crate::types::RunWpParams;
use crate::wpmodel::default_wp_model;
use crate::wpout::{strip_prefix, strip_prefix_spec};
use vstd::prelude::*;
use vstd::string::*;

verus! {

// ---------------------------------------------------------------------------
// Provers
// ---------------------------------------------------------------------------

/// The provers that are used where none are asked for: Alt-Ergo, and what else is installed.
pub open spec fn installed_provers(cvc5: bool, z3: bool) -> Seq<char> {
    "Alt-Ergo"@ + (if cvc5 {
        ",CVC5"@
    } else {
        Seq::empty()
    }) + (if z3 {
        ",Z3"@
    } else {
        Seq::empty()
    })
}

/// The provers that are used where none are asked for, by whether CVC5 and Z3 are installed.
pub fn default_wp_provers(cvc5: bool, z3: bool) -> (r: String)
    ensures
        r@ == installed_provers(cvc5, z3),
{
    let mut r = owned("Alt-Ergo");
    if cvc5 {
        r = cat2(r.as_str(), ",CVC5");
    }
    if z3 {
        r = cat2(r.as_str(), ",Z3");
    }
    assert(r@ =~= installed_provers(cvc5, z3));
    r
}

/// Texts without what surrounds them.
pub open spec fn trimmed(s: Seq<Seq<char>>) -> Seq<Seq<char>> {
    s.map_values(|t: Seq<char>| trim_spec(t))
}

/// The names of a list, those that are empty aside.
pub open spec fn named(parts: Seq<Seq<char>>) -> Seq<Seq<char>>
    decreases parts.len(),
{
    if parts.len() == 0 {
        Seq::empty()
    } else {
        let t = trim_spec(parts.last());
        if t.len() > 0 {
            named(parts.drop_last()).push(t)
        } else {
            named(parts.drop_last())
        }
    }
}

/// The provers that a setting of the environment names, which must name one.
pub open spec fn provers_in(value: Option<Seq<char>>) -> Result<Option<Seq<Seq<char>>>, Seq<char>> {
    match value {
        None => Ok(None),
        Some(v) => if named(pieces(v, ',')).len() == 0 {
            Err("FRAMAC_PROVERS must name at least one prover"@)
        } else {
            Ok(Some(named(pieces(v, ','))))
        },
    }
}

/// Whether a list was read as described, with an error compared by its message.
pub open spec fn lists(
    r: Result<Option<Vec<String>>, ToolError>,
    described: Result<Option<Seq<Seq<char>>>, Seq<char>>,
) -> bool {
    match r {
        Ok(Some(v)) => described == Ok::<_, Seq<char>>(Some(texts(v@))),
        Ok(None) => described == Ok::<Option<Seq<Seq<char>>>, Seq<char>>(None),
        Err(e) => described is Err && e@ == ToolErrorView::invalid(described->Err_0),
    }
}

/// The provers that a setting of the environment names.
pub fn parse_wp_provers(value: Option<&str>) -> (r: Result<Option<Vec<String>>, ToolError>)
    ensures
        lists(r, provers_in(opt_text(value))),
{
    match value {
        None => Ok(None),
        Some(v) => {
            let parts = split_char(v, ',');
            let ghost all = pieces(v@, ',');
            let mut out: Vec<String> = Vec::new();
            let mut i: usize = 0;
            assert(texts(out@) =~= Seq::empty());
            assert(all.subrange(0, 0) =~= Seq::empty());
            while i < parts.len()
                invariant
                    i <= parts@.len(),
                    all == texts(parts@),
                    texts(out@) == named(all.subrange(0, i as int)),
                decreases parts@.len() - i,
            {
                proof {
                    lemma_take_next(all, i as int);
                }
                let t = trim(parts[i].as_str());
                if !t.as_str().is_empty() {
                    let ghost before = out@;
                    let ghost tv = t@;
                    out.push(t);
                    assert(texts(out@) =~= texts(before).push(tv));
                }
                i = i + 1;
            }
            assert(all.subrange(0, i as int) =~= all);
            assert(texts(out@).len() == out@.len());
            if out.len() == 0 {
                return Err(
                    ToolError::invalid(owned("FRAMAC_PROVERS must name at least one prover")),
                );
            }
            Ok(Some(out))
        },
    }
}

/// The provers that a run asks for, in a list or by one name.
pub open spec fn asked_provers(p: RunWpParams) -> Option<Seq<Seq<char>>> {
    match p.provers {
        Some(v) => Some(texts(v@)),
        None => match p.prover {
            Some(s) => Some(seq![s@]),
            None => None,
        },
    }
}

/// Whether every name of a list is one.
pub open spec fn all_named(s: Seq<Seq<char>>) -> bool {
    s.len() > 0 && forall|i: int| 0 <= i < s.len() ==> (#[trigger] s[i]).len() > 0
}

/// The provers that a run asks for, or why it cannot: it asks in one way only, and by names.
pub open spec fn requested_provers(p: RunWpParams) -> Result<Option<Seq<Seq<char>>>, Seq<char>> {
    if p.prover is Some && p.provers is Some {
        Err("use either prover or provers, not both"@)
    } else {
        match asked_provers(p) {
            None => Ok(None),
            Some(v) => if all_named(trimmed(v)) {
                Ok(Some(trimmed(v)))
            } else {
                Err("provers must be a non-empty list of non-empty prover names"@)
            },
        }
    }
}

fn trim_names(v: &Vec<String>) -> (r: Vec<String>)
    ensures
        texts(r@) == trimmed(texts(v@)),
        r@.len() == v@.len(),
{
    let mut out: Vec<String> = Vec::new();
    let mut i: usize = 0;
    while i < v.len()
        invariant
            i <= v@.len(),
            out@.len() == i,
            forall|k: int| 0 <= k < i ==> (#[trigger] out@[k])@ == trim_spec(v@[k]@),
        decreases v@.len() - i,
    {
        out.push(trim(v[i].as_str()));
        i = i + 1;
    }
    assert(texts(out@) =~= trimmed(texts(v@)));
    out
}

fn names_all(v: &Vec<String>) -> (r: bool)
    ensures
        r == all_named(texts(v@)),
{
    let ghost s = texts(v@);
    let mut i: usize = 0;
    while i < v.len()
        invariant
            i <= v@.len(),
            s == texts(v@),
            forall|k: int| 0 <= k < i ==> (#[trigger] s[k]).len() > 0,
        decreases v@.len() - i,
    {
        assert(s[i as int] == v@[i as int]@);
        if v[i].as_str().is_empty() {
            assert(s[i as int].len() == 0);
            return false;
        }
        i = i + 1;
    }
    assert(s.len() == v@.len());
    v.len() > 0
}

/// The provers that a run asks for, or why it cannot.
pub fn requested_wp_provers(params: &RunWpParams) -> (r: Result<Option<Vec<String>>, ToolError>)
    ensures
        lists(r, requested_provers(*params)),
{
    if params.prover.is_some() && params.provers.is_some() {
        return Err(ToolError::invalid(owned("use either prover or provers, not both")));
    }
    let asked = match &params.provers {
        Some(v) => own_all(v),
        None => match &params.prover {
            Some(s) => {
                let one: Vec<String> = vec![owned(s.as_str())];
                assert(texts(one@) =~= seq![s@]);
                one
            },
            None => {
                return Ok(None);
            },
        },
    };
    assert(asked_provers(*params) == Some(texts(asked@)));
    let names = trim_names(&asked);
    if !names_all(&names) {
        return Err(
            ToolError::invalid(
                owned("provers must be a non-empty list of non-empty prover names"),
            ),
        );
    }
    Ok(Some(names))
}

/// The provers that a run uses, as far as that is known: those it asks for, else those of the
/// environment.
pub open spec fn effective_provers(p: RunWpParams, env: Option<Seq<char>>) -> Result<
    Option<Seq<Seq<char>>>,
    Seq<char>,
> {
    match requested_provers(p) {
        Ok(Some(v)) => Ok(Some(v)),
        Ok(None) => provers_in(env),
        Err(e) => Err(e),
    }
}

/// The provers that a run uses, as far as that is known. What the call asks for beats the
/// environment.
pub fn effective_wp_provers_from(params: &RunWpParams, env_value: Option<&str>) -> (r: Result<
    Option<Vec<String>>,
    ToolError,
>)
    ensures
        lists(r, effective_provers(*params, opt_text(env_value))),
{
    match requested_wp_provers(params) {
        Ok(Some(v)) => Ok(Some(v)),
        Ok(None) => parse_wp_provers(env_value),
        Err(e) => Err(e),
    }
}

// ---------------------------------------------------------------------------
// Numbers
// ---------------------------------------------------------------------------

/// The number that a setting of the environment holds.
pub open spec fn number_in(name: Seq<char>, value: Option<Seq<char>>) -> Result<
    Option<int>,
    Seq<char>,
> {
    match value {
        None => Ok(None),
        Some(v) => match parse_spec(trim_spec(v), u32::MAX as nat) {
            Some(n) => Ok(Some(n as int)),
            None => Err(name + " must be a non-negative integer"@),
        },
    }
}

/// Whether a number was read as described, with an error compared by its message.
pub open spec fn counts(
    r: Result<Option<u32>, ToolError>,
    described: Result<Option<int>, Seq<char>>,
) -> bool {
    match r {
        Ok(n) => described == Ok::<_, Seq<char>>(crate::alarms::opt_u32(n)),
        Err(e) => described is Err && e@ == ToolErrorView::invalid(described->Err_0),
    }
}

/// The number that a setting of the environment holds.
pub fn parse_wp_u32(name: &str, value: Option<&str>) -> (r: Result<Option<u32>, ToolError>)
    ensures
        counts(r, number_in(name@, opt_text(value))),
{
    match value {
        None => Ok(None),
        Some(v) => match parse_u32(trim(v).as_str()) {
            Some(n) => Ok(Some(n)),
            None => Err(ToolError::invalid(cat2(name, " must be a non-negative integer"))),
        },
    }
}

/// Refuses to run no prover at all.
pub fn validate_wp_par(par: u32) -> (r: Result<u32, ToolError>)
    ensures
        match r {
            Ok(n) => par > 0 && n == par,
            Err(e) => par == 0 && e@ == ToolErrorView::invalid("WP parallelism must be at least 1"@),
        },
{
    if par == 0 {
        return Err(ToolError::invalid(owned("WP parallelism must be at least 1")));
    }
    Ok(par)
}

/// The seconds that a prover has, as far as that is known.
pub open spec fn effective_timeout(p: RunWpParams, env: Option<Seq<char>>) -> Result<
    Option<int>,
    Seq<char>,
> {
    match p.timeout {
        Some(t) => Ok(Some(t as int)),
        None => number_in("FRAMAC_TIMEOUT"@, env),
    }
}

/// The seconds that a prover has, as far as that is known. What the call asks for beats the
/// environment.
pub fn effective_wp_timeout_from(params: &RunWpParams, env_value: Option<&str>) -> (r: Result<
    Option<u32>,
    ToolError,
>)
    ensures
        counts(r, effective_timeout(*params, opt_text(env_value))),
{
    match params.timeout {
        Some(t) => Ok(Some(t)),
        None => parse_wp_u32("FRAMAC_TIMEOUT", env_value),
    }
}

/// A number of provers at once, which is not zero.
pub open spec fn positive(n: Option<int>) -> Result<Option<int>, Seq<char>> {
    match n {
        Some(k) => if k == 0 {
            Err("WP parallelism must be at least 1"@)
        } else {
            Ok(Some(k))
        },
        None => Ok(None),
    }
}

/// How many provers run at once, as far as that is known.
pub open spec fn effective_par(p: RunWpParams, env: Option<Seq<char>>) -> Result<
    Option<int>,
    Seq<char>,
> {
    match p.par {
        Some(n) => positive(Some(n as int)),
        None => match number_in("FRAMAC_PAR"@, env) {
            Ok(n) => positive(n),
            Err(e) => Err(e),
        },
    }
}

/// How many provers run at once, as far as that is known. What the call asks for beats the
/// environment.
pub fn effective_wp_par_from(params: &RunWpParams, env_value: Option<&str>) -> (r: Result<
    Option<u32>,
    ToolError,
>)
    ensures
        counts(r, effective_par(*params, opt_text(env_value))),
{
    let asked: Option<u32> = match params.par {
        Some(n) => Some(n),
        None => match parse_wp_u32("FRAMAC_PAR", env_value) {
            Ok(n) => n,
            Err(e) => {
                return Err(e);
            },
        },
    };
    match asked {
        Some(n) => match validate_wp_par(n) {
            Ok(n) => Ok(Some(n)),
            Err(e) => Err(e),
        },
        None => Ok(None),
    }
}

/// What a run asks for itself is used, whatever the environment says.
pub proof fn law_the_call_beats_the_environment(
    p: RunWpParams,
    one: Option<Seq<char>>,
    other: Option<Seq<char>>,
)
    ensures
        asked_provers(p) is Some ==> effective_provers(p, one) == effective_provers(p, other),
        p.timeout is Some ==> effective_timeout(p, one) == effective_timeout(p, other),
        p.par is Some ==> effective_par(p, one) == effective_par(p, other),
{
}

/// A run that asks for nothing, in an environment that says nothing, leaves everything to Frama-C.
pub proof fn law_nothing_asked_nothing_set(p: RunWpParams)
    requires
        p.prover is None,
        p.provers is None,
        p.timeout is None,
        p.par is None,
    ensures
        effective_provers(p, None) == Ok::<Option<Seq<Seq<char>>>, Seq<char>>(None),
        effective_timeout(p, None) == Ok::<Option<int>, Seq<char>>(None),
        effective_par(p, None) == Ok::<Option<int>, Seq<char>>(None),
{
}

// ---------------------------------------------------------------------------
// The cache
// ---------------------------------------------------------------------------

/// The modes of the proof cache, as Frama-C spells them.
pub open spec fn cache_modes() -> Seq<Seq<char>> {
    seq!["None"@, "Update"@, "Replay"@, "Rebuild"@, "Offline"@, "Cleanup"@]
}

fn cache_mode_list() -> (r: Vec<&'static str>)
    ensures
        slices(r@) == cache_modes(),
{
    let r: Vec<&'static str> = vec!["None", "Update", "Replay", "Rebuild", "Offline", "Cleanup"];
    assert(slices(r@) =~= cache_modes());
    r
}

/// The mode from `i` on that a text names in any case.
pub open spec fn mode_from(requested: Seq<char>, i: int) -> Option<Seq<char>>
    decreases cache_modes().len() - i,
{
    if i < 0 || i >= cache_modes().len() {
        None
    } else if ascii_lower(cache_modes()[i]) == ascii_lower(trim_spec(requested)) {
        Some(cache_modes()[i])
    } else {
        mode_from(requested, i + 1)
    }
}

/// The mode that a text names in any case.
pub open spec fn cache_mode(requested: Seq<char>) -> Option<Seq<char>> {
    mode_from(requested, 0)
}

/// The modes, as they are listed in a message.
pub const CACHE_MODE_LIST: &'static str = "None, Update, Replay, Rebuild, Offline, Cleanup";

/// What is said of a text that names no mode.
pub open spec fn cache_complaint(requested: Seq<char>) -> Seq<char> {
    "unknown WP cache mode "@ + debug_quoted(requested) + "; expected one of "@ + CACHE_MODE_LIST@
}

/// Accepts a mode in any case, and returns it as Frama-C spells it. What names none is refused
/// here, because Frama-C would refuse it without saying which do.
pub fn validate_wp_cache_mode(requested: &str) -> (r: Result<&'static str, ToolError>)
    ensures
        match r {
            Ok(m) => cache_mode(requested@) == Some(m@),
            Err(e) => cache_mode(requested@) is None && e@ == ToolErrorView::invalid(
                cache_complaint(requested@),
            ),
        },
{
    let modes = cache_mode_list();
    let wanted = trim(requested);
    let mut i: usize = 0;
    while i < modes.len()
        invariant
            i <= modes@.len(),
            slices(modes@) == cache_modes(),
            wanted@ == trim_spec(requested@),
            cache_mode(requested@) == mode_from(requested@, i as int),
        decreases modes@.len() - i,
    {
        assert(slices(modes@)[i as int] == modes@[i as int]@);
        if same_ignoring_case(modes[i], wanted.as_str()) {
            return Ok(modes[i]);
        }
        i = i + 1;
    }
    assert(slices(modes@).len() == modes@.len());
    Err(
        ToolError::invalid(
            cat4(
                "unknown WP cache mode ",
                debug_text(requested).as_str(),
                "; expected one of ",
                CACHE_MODE_LIST,
            ),
        ),
    )
}

/// The mode that a run asks for: the one it names, and Frama-C's own otherwise.
pub open spec fn asked_cache(p: RunWpParams) -> Seq<char> {
    match p.cache {
        Some(c) => c@,
        None => "Update"@,
    }
}

/// The mode of the cache that a run uses. A replayed proof is still a proof, so the default is
/// Frama-C's own.
pub fn effective_wp_cache(params: &RunWpParams) -> (r: Result<&'static str, ToolError>)
    ensures
        match r {
            Ok(m) => cache_mode(asked_cache(*params)) == Some(m@),
            Err(e) => cache_mode(asked_cache(*params)) is None && e@ == ToolErrorView::invalid(
                cache_complaint(asked_cache(*params)),
            ),
        },
{
    match &params.cache {
        Some(c) => validate_wp_cache_mode(c.as_str()),
        None => validate_wp_cache_mode("Update"),
    }
}

// ---------------------------------------------------------------------------
// Markers and names
// ---------------------------------------------------------------------------

/// What is said of a marker that is not one of a declaration.
pub open spec fn marker_complaint(declaration: Seq<char>) -> Seq<char> {
    "expected an AST.Decl marker like #F26, got "@ + debug_quoted(declaration)
}

/// Turns the marker of a declaration into the one that WP wants: `#F26` becomes `#v26`.
pub fn pvdecl_marker(declaration: &str) -> (r: Result<String, ToolError>)
    ensures
        match r {
            Ok(m) => begins(declaration@, "#F"@) && m@ == "#v"@ + strip_prefix_spec(
                declaration@,
                "#F"@,
            )->0,
            Err(e) => !begins(declaration@, "#F"@) && e@ == ToolErrorView::internal(
                marker_complaint(declaration@),
            ),
        },
{
    match strip_prefix(declaration, "#F") {
        Some(vid) => Ok(cat2("#v", vid.as_str())),
        None => Err(
            ToolError::internal(
                cat2(
                    "expected an AST.Decl marker like #F26, got ",
                    debug_text(declaration).as_str(),
                ),
            ),
        ),
    }
}

/// The name of a prover and its version, without the name of the driver before it.
pub open spec fn prover_parts(prover: Seq<char>) -> (Seq<char>, Option<Seq<char>>) {
    let p = match strip_prefix_spec(prover, "why3:"@) {
        Some(rest) => rest,
        None => prover,
    };
    match split_once_spec(p, ":"@) {
        Some((name, version)) => (name, Some(version)),
        None => (p, None),
    }
}

/// Whether a request for a prover means one that is installed. A request that names no version
/// takes whatever is installed; one that names a version means it.
pub open spec fn means_prover(requested: Seq<char>, id: Seq<char>) -> bool {
    let (name, version) = prover_parts(requested);
    let (id_name, id_version) = prover_parts(id);
    ascii_lower(name) == ascii_lower(id_name) && (match (version, id_version) {
        (None, _) => true,
        (Some(v), Some(installed)) => ascii_lower(v) == ascii_lower(installed),
        (Some(_), None) => false,
    })
}

fn split_prover(prover: &str) -> (r: (String, Option<String>))
    ensures
        (r.0@, opt_string(r.1)) == prover_parts(prover@),
{
    let p = match strip_prefix(prover, "why3:") {
        Some(rest) => rest,
        None => owned(prover),
    };
    match split_once(p.as_str(), ":") {
        Some((name, version)) => (name, Some(version)),
        None => (p, None),
    }
}

/// Whether a request for a prover means one that is installed.
pub fn prover_id_matches(requested: &str, id: &str) -> (r: bool)
    ensures
        r == means_prover(requested@, id@),
{
    let (name, version) = split_prover(requested);
    let (id_name, id_version) = split_prover(id);
    if !same_ignoring_case(name.as_str(), id_name.as_str()) {
        return false;
    }
    match version {
        None => true,
        Some(v) => match id_version {
            Some(installed) => same_ignoring_case(v.as_str(), installed.as_str()),
            None => false,
        },
    }
}

/// Whether some request means a prover that is installed.
pub open spec fn is_requested(requested: Seq<Seq<char>>, id: Seq<char>) -> bool {
    exists|i: int| 0 <= i < requested.len() && means_prover(#[trigger] requested[i], id)
}

/// Whether some request means some prover that is installed.
pub open spec fn any_requested(requested: Seq<Seq<char>>, ids: Seq<Seq<char>>) -> bool {
    exists|i: int| 0 <= i < ids.len() && is_requested(requested, #[trigger] ids[i])
}

/// Texts as they are listed in a message.
pub open spec fn debug_list(s: Seq<Seq<char>>) -> Seq<char> {
    "["@ + join_spec(s.map_values(|t: Seq<char>| debug_quoted(t)), ", "@) + "]"@
}

/// Texts as they are listed in a message.
pub fn debug_texts(v: &Vec<String>) -> (r: String)
    ensures
        r@ == debug_list(texts(v@)),
{
    let mut out: Vec<String> = Vec::new();
    let mut i: usize = 0;
    while i < v.len()
        invariant
            i <= v@.len(),
            out@.len() == i,
            forall|k: int| 0 <= k < i ==> (#[trigger] out@[k])@ == debug_quoted(v@[k]@),
        decreases v@.len() - i,
    {
        out.push(debug_text(v[i].as_str()));
        i = i + 1;
    }
    assert(texts(out@) =~= texts(v@).map_values(|t: Seq<char>| debug_quoted(t)));
    cat3("[", join(&out, ", ").as_str(), "]")
}

fn asks_for(requested: &Vec<String>, id: &str) -> (r: bool)
    ensures
        r == is_requested(texts(requested@), id@),
{
    let ghost s = texts(requested@);
    let mut i: usize = 0;
    while i < requested.len()
        invariant
            i <= requested@.len(),
            s == texts(requested@),
            forall|k: int| 0 <= k < i ==> !means_prover(#[trigger] s[k], id@),
        decreases requested@.len() - i,
    {
        assert(s[i as int] == requested@[i as int]@);
        if prover_id_matches(requested[i].as_str(), id) {
            assert(is_requested(s, id@));
            return true;
        }
        i = i + 1;
    }
    assert(s.len() == requested@.len());
    false
}

/// Which provers are switched on and off, as views.
pub open spec fn switches(v: Seq<(String, bool)>) -> Seq<(Seq<char>, bool)> {
    v.map_values(|e: (String, bool)| (e.0@, e.1))
}

/// The provers that are switched on and off for a request: every one that is installed is set, so
/// that the outcome does not depend on what was selected before.
pub open spec fn selection(requested: Seq<Seq<char>>, ids: Seq<Seq<char>>) -> Seq<
    (Seq<char>, bool),
> {
    ids.map_values(|id: Seq<char>| (id, is_requested(requested, id)))
}

/// What is said where no prover that is installed is meant.
pub open spec fn no_prover(requested: Seq<Seq<char>>, ids: Seq<Seq<char>>) -> ToolErrorView {
    ToolErrorView::invalid(
        "no prover matches "@ + debug_list(requested) + "; this Frama-C offers "@ + debug_list(ids),
    )
}

/// Which provers are switched on and off for a request, by those that Frama-C says it has. Where
/// none is meant, all would be switched off and every goal would come back without a result, so
/// the request is refused instead. A reply that lists nothing asks for nothing.
pub fn prover_selection(requested: &Vec<String>, reply: &Json) -> (r: Result<
    Vec<(String, bool)>,
    ToolError,
>)
    ensures
        match reply@.as_list() {
            None => r is Ok && switches(r->Ok_0@) == Seq::<(Seq<char>, bool)>::empty(),
            Some(items) => {
                let ids = text_items(items);
                match r {
                    Ok(v) => any_requested(texts(requested@), ids) && switches(v@) == selection(
                        texts(requested@),
                        ids,
                    ),
                    Err(e) => !any_requested(texts(requested@), ids) && e@ == no_prover(
                        texts(requested@),
                        ids,
                    ),
                }
            },
        },
{
    let mut out: Vec<(String, bool)> = Vec::new();
    match reply.as_list() {
        None => {
            assert(switches(out@) =~= Seq::empty());
            Ok(out)
        },
        Some(_) => {
            let ids = crate::reload::loaded_files(reply);
            let ghost all = texts(ids@);
            let ghost wanted = texts(requested@);
            let mut any: bool = false;
            let mut i: usize = 0;
            while i < ids.len()
                invariant
                    i <= ids@.len(),
                    all == texts(ids@),
                    wanted == texts(requested@),
                    any == (exists|k: int| 0 <= k < i && is_requested(wanted, #[trigger] all[k])),
                    out@.len() == i,
                    forall|k: int|
                        0 <= k < i ==> (#[trigger] out@[k]).0@ == all[k] && out@[k].1
                            == is_requested(wanted, all[k]),
                decreases ids@.len() - i,
            {
                assert(all[i as int] == ids@[i as int]@);
                let on = asks_for(requested, ids[i].as_str());
                if on {
                    any = true;
                }
                out.push((owned(ids[i].as_str()), on));
                i = i + 1;
            }
            assert(all.len() == ids@.len());
            if !any {
                return Err(
                    ToolError::invalid(
                        cat4(
                            "no prover matches ",
                            debug_texts(requested).as_str(),
                            "; this Frama-C offers ",
                            debug_texts(&ids).as_str(),
                        ),
                    ),
                );
            }
            assert(switches(out@) =~= selection(wanted, all));
            Ok(out)
        },
    }
}

/// A selection that is made switches some prover on.
pub proof fn law_a_selection_keeps_a_prover(requested: Seq<Seq<char>>, ids: Seq<Seq<char>>)
    requires
        any_requested(requested, ids),
    ensures
        exists|i: int| 0 <= i < ids.len() && (#[trigger] selection(requested, ids)[i]).1,
{
    let i = choose|i: int| 0 <= i < ids.len() && is_requested(requested, #[trigger] ids[i]);
    assert(selection(requested, ids)[i].1);
}

// ---------------------------------------------------------------------------
// What a run answers
// ---------------------------------------------------------------------------

/// The text of an entry, where its key is looked for.
pub open spec fn entry_text(e: (Seq<char>, JsonView), keys: Seq<Seq<char>>) -> Seq<Seq<char>> {
    match e.1 {
        JsonView::Str(t) => if keys.contains(e.0) {
            seq![t]
        } else {
            Seq::empty()
        },
        _ => Seq::empty(),
    }
}

/// The texts under some keys, anywhere in a value.
pub open spec fn field_texts(v: JsonView, keys: Seq<Seq<char>>) -> Seq<Seq<char>>
    decreases v,
{
    match v {
        JsonView::Array(s) => list_texts(s, keys),
        JsonView::Object(s) => entry_texts(s, keys),
        _ => Seq::empty(),
    }
}

/// The texts under some keys, anywhere in some values.
pub open spec fn list_texts(s: Seq<JsonView>, keys: Seq<Seq<char>>) -> Seq<Seq<char>>
    decreases s,
{
    if s.len() == 0 {
        Seq::empty()
    } else {
        list_texts(s.drop_last(), keys) + field_texts(s.last(), keys)
    }
}

/// The texts under some keys, anywhere in some entries.
pub open spec fn entry_texts(s: Seq<(Seq<char>, JsonView)>, keys: Seq<Seq<char>>) -> Seq<Seq<char>>
    decreases s,
{
    if s.len() == 0 {
        Seq::empty()
    } else {
        entry_texts(s.drop_last(), keys) + entry_text(s.last(), keys) + field_texts(
            s.last().1,
            keys,
        )
    }
}

fn is_key(keys: &Vec<&'static str>, key: &str) -> (r: bool)
    ensures
        r == slices(keys@).contains(key@),
{
    let ghost s = slices(keys@);
    let mut i: usize = 0;
    while i < keys.len()
        invariant
            i <= keys@.len(),
            s == slices(keys@),
            forall|k: int| 0 <= k < i ==> #[trigger] s[k] != key@,
        decreases keys@.len() - i,
    {
        assert(s[i as int] == keys@[i as int]@);
        if same(keys[i], key) {
            return true;
        }
        i = i + 1;
    }
    assert(s.len() == keys@.len());
    false
}

fn collect_fields(value: &Json, keys: &Vec<&'static str>, out: &mut Vec<String>)
    ensures
        texts(final(out)@) == texts(old(out)@) + field_texts(value@, slices(keys@)),
    decreases value,
{
    let ghost start = texts(out@);
    let ghost ks = slices(keys@);
    match value {
        Json::Array(v) => {
            let ghost all = models(v@);
            proof {
                lemma_array_view(*v);
                assert(all.subrange(0, 0) =~= Seq::empty());
                assert(start + list_texts(all.subrange(0, 0), ks) =~= start);
            }
            let mut i: usize = 0;
            while i < v.len()
                invariant
                    *value == Json::Array(*v),
                    i <= v@.len(),
                    all == models(v@),
                    ks == slices(keys@),
                    texts(out@) == start + list_texts(all.subrange(0, i as int), ks),
                decreases v@.len() - i,
            {
                assert(decreases_to!(*value => value->Array_0));
                assert(decreases_to!(value->Array_0 => v@));
                assert(decreases_to!(v@ => v@[i as int]));
                proof {
                    lemma_take_next(all, i as int);
                    assert(all[i as int] == v@[i as int]@);
                }
                collect_fields(&v[i], keys, out);
                assert(texts(out@) =~= start + list_texts(all.subrange(0, i as int + 1), ks));
                i = i + 1;
            }
            assert(all.subrange(0, i as int) =~= all);
        },
        Json::Object(v) => {
            let ghost all = entries(v@);
            proof {
                lemma_object_view(*v);
                assert(all.subrange(0, 0) =~= Seq::empty());
                assert(start + entry_texts(all.subrange(0, 0), ks) =~= start);
            }
            let mut i: usize = 0;
            while i < v.len()
                invariant
                    *value == Json::Object(*v),
                    i <= v@.len(),
                    all == entries(v@),
                    ks == slices(keys@),
                    texts(out@) == start + entry_texts(all.subrange(0, i as int), ks),
                decreases v@.len() - i,
            {
                assert(decreases_to!(*value => value->Object_0));
                assert(decreases_to!(value->Object_0 => v@));
                assert(decreases_to!(v@ => v@[i as int]));
                assert(decreases_to!(v@[i as int] => v@[i as int].1));
                proof {
                    lemma_take_next(all, i as int);
                    assert(all[i as int] == (v@[i as int].0@, v@[i as int].1@));
                }
                let ghost before = texts(out@);
                if is_key(keys, v[i].0.as_str()) {
                    match v[i].1.as_text() {
                        Some(t) => {
                            let ghost held = out@;
                            let o = owned(t);
                            out.push(o);
                            assert(texts(out@) =~= texts(held).push(o@));
                        },
                        None => {},
                    }
                }
                assert(texts(out@) =~= before + entry_text(all[i as int], ks));
                collect_fields(&v[i].1, keys, out);
                assert(texts(out@) =~= start + entry_texts(all.subrange(0, i as int + 1), ks));
                i = i + 1;
            }
            assert(all.subrange(0, i as int) =~= all);
        },
        _ => {
            assert(start + field_texts(value@, ks) =~= start);
        },
    }
}

/// The texts under some keys, anywhere in a value, in order and each once.
pub fn collect_json_string_fields(value: &Json, keys: &Vec<&'static str>) -> (r: Vec<String>)
    ensures
        texts(r@) == sorted_unique(field_texts(value@, slices(keys@))),
{
    let mut out: Vec<String> = Vec::new();
    collect_fields(value, keys, &mut out);
    assert(texts(out@) =~= field_texts(value@, slices(keys@)));
    sort_unique(&out)
}

/// What the environment says of WP: the settings `FRAMAC_PROVERS`, `FRAMAC_TIMEOUT` and
/// `FRAMAC_PAR`, where they are set.
pub struct WpEnvironment {
    pub provers: Option<String>,
    pub timeout: Option<String>,
    pub par: Option<String>,
}

/// What was read, or nothing where it could not be.
pub open spec fn read_or_none<T>(r: Result<Option<T>, Seq<char>>) -> Option<T> {
    match r {
        Ok(v) => v,
        Err(_) => None,
    }
}

/// The provers of the environment, where it names some.
pub open spec fn env_provers(env: WpEnvironment) -> Option<Seq<Seq<char>>> {
    read_or_none(provers_in(opt_string(env.provers)))
}

/// The provers that are reported as used.
pub open spec fn reported_provers(p: RunWpParams, env: WpEnvironment) -> Option<Seq<Seq<char>>> {
    match read_or_none(requested_provers(p)) {
        Some(v) => Some(v),
        None => env_provers(env),
    }
}

/// A number of the environment, where it holds one.
pub open spec fn env_number(name: Seq<char>, value: Option<String>) -> Option<int> {
    read_or_none(number_in(name, opt_string(value)))
}

/// The number that is reported as used: the one that is asked for, else that of the environment.
pub open spec fn reported_number(asked: Option<u32>, env: Option<int>) -> Option<int> {
    match asked {
        Some(n) => Some(n as int),
        None => env,
    }
}

/// The model that a run uses.
pub open spec fn used_model(p: RunWpParams) -> Seq<char> {
    match p.model {
        Some(m) => m@,
        None => "Typed+nocast"@,
    }
}

/// An option and its value, where there is one.
pub open spec fn option_pair(name: Seq<char>, value: Option<Seq<char>>) -> Seq<Seq<char>> {
    match value {
        Some(v) => seq![name, v],
        None => Seq::empty(),
    }
}

/// A number in decimal, where there is one.
pub open spec fn opt_decimal(n: Option<int>) -> Option<Seq<char>> {
    match n {
        Some(k) => Some(decimal(k as nat)),
        None => None,
    }
}

/// Names with commas between them, where there are some.
pub open spec fn opt_joined(v: Option<Seq<Seq<char>>>) -> Option<Seq<char>> {
    match v {
        Some(s) => Some(join_spec(s, ","@)),
        None => None,
    }
}

/// The options that a run amounts to on a command line.
pub open spec fn wp_options(p: RunWpParams, env: WpEnvironment, rte: bool) -> Seq<Seq<char>> {
    seq!["-wp"@, "-wp-model"@, used_model(p)] + option_pair(
        "-wp-prover"@,
        opt_joined(reported_provers(p, env)),
    ) + (if rte {
        seq!["-wp-rte"@]
    } else {
        Seq::empty()
    }) + option_pair(
        "-wp-timeout"@,
        opt_decimal(reported_number(p.timeout, env_number("FRAMAC_TIMEOUT"@, env.timeout))),
    ) + option_pair(
        "-wp-par"@,
        opt_decimal(reported_number(p.par, env_number("FRAMAC_PAR"@, env.par))),
    ) + option_pair("-wp-prop"@, opt_string(p.prop))
}

/// What was asked for, what the environment says, and what is used.
pub open spec fn setting(
    requested: JsonView,
    env_default: JsonView,
    effective: JsonView,
) -> JsonView {
    JsonView::object().with("requested"@, requested).with("env_default"@, env_default).with(
        "effective"@,
        effective,
    ).with("effective_known"@, JsonView::Bool(effective != JsonView::Null))
}

/// What was asked for, and what is used.
pub open spec fn plain_setting(requested: JsonView, effective: JsonView) -> JsonView {
    JsonView::object().with("requested"@, requested).with("effective"@, effective).with(
        "effective_known"@,
        JsonView::Bool(effective != JsonView::Null),
    )
}

/// Names as a value, where there are some.
pub open spec fn opt_names(v: Option<Seq<Seq<char>>>) -> JsonView {
    match v {
        Some(s) => JsonView::strings(s),
        None => JsonView::Null,
    }
}

/// The provers that a run asks for, as it asks for them.
pub open spec fn provers_as_asked(p: RunWpParams) -> JsonView {
    match p.provers {
        Some(v) => JsonView::strings(texts(v@)),
        None => JsonView::opt_text(opt_string(p.prover)),
    }
}

/// The settings of a run, as they are reported.
pub open spec fn wp_config(
    tasks: JsonView,
    p: RunWpParams,
    env: WpEnvironment,
    functions: Seq<Seq<char>>,
    scope: Seq<char>,
    rte: bool,
) -> JsonView {
    let timeout = env_number("FRAMAC_TIMEOUT"@, env.timeout);
    let par = env_number("FRAMAC_PAR"@, env.par);
    let prop = JsonView::opt_text(opt_string(p.prop));
    JsonView::object().with("scope"@, JsonView::Str(scope)).with(
        "functions"@,
        JsonView::strings(functions),
    ).with("model"@, JsonView::Str(used_model(p))).with("arithmetic_model"@, JsonView::Null).with(
        "provers"@,
        setting(
            provers_as_asked(p),
            opt_names(env_provers(env)),
            opt_names(reported_provers(p, env)),
        ),
    ).with(
        "timeout_seconds"@,
        setting(
            JsonView::opt_int(crate::alarms::opt_u32(p.timeout)),
            JsonView::opt_int(timeout),
            JsonView::opt_int(reported_number(p.timeout, timeout)),
        ),
    ).with(
        "parallel"@,
        setting(
            JsonView::opt_int(crate::alarms::opt_u32(p.par)),
            JsonView::opt_int(par),
            JsonView::opt_int(reported_number(p.par, par)),
        ),
    ).with("prop"@, plain_setting(prop, prop)).with(
        "cache"@,
        plain_setting(
            JsonView::opt_text(opt_string(p.cache)),
            JsonView::opt_text(cache_mode(asked_cache(p))),
        ),
    ).with("rte"@, JsonView::Bool(rte)).with("split_strategy"@, JsonView::Null).with(
        "raw_task_ids"@,
        JsonView::strings(
            sorted_unique(field_texts(tasks, seq!["id"@, "task_id"@, "taskId"@])),
        ),
    )
}

/// What a run answers: what WP said of its tasks, with the settings, the options, the protocol,
/// and what can be said of timeouts and failures.
pub open spec fn run_answer(
    tasks: JsonView,
    config: JsonView,
    options: Seq<Seq<char>>,
    protocol: Seq<JsonView>,
    triage: JsonView,
    failure_kind: Seq<char>,
    report: Option<JsonView>,
) -> JsonView {
    let base = if tasks is Object {
        tasks
    } else {
        JsonView::object().with("tasks"@, tasks)
    };
    let answer = base.with("effective_wp_config"@, config).with(
        "frama_c_options"@,
        JsonView::strings(options),
    ).with("frama_c_protocol"@, JsonView::Array(protocol)).with("wp_timeout_triage"@, triage).with(
        "failure_kind"@,
        JsonView::Str(failure_kind),
    );
    match report {
        Some(r) => answer.with("proofread_report"@, r),
        None => answer,
    }
}

pub(crate) fn opt_value_text(o: &Option<String>) -> (r: Json)
    ensures
        r@ == JsonView::opt_text(opt_string(*o)),
{
    crate::reload::text_or_null(o)
}

fn names_or_null(o: &Option<Vec<String>>) -> (r: Json)
    ensures
        r@ == opt_names(crate::reload::opt_texts(*o)),
{
    match o {
        Some(v) => Json::strings(v),
        None => Json::Null,
    }
}

pub(crate) fn as_str_of(o: &Option<String>) -> (r: Option<&str>)
    ensures
        opt_text(r) == opt_string(*o),
{
    match o {
        Some(s) => Some(s.as_str()),
        None => None,
    }
}

pub(crate) fn setting_value(requested: Json, env_default: Json, effective: Json) -> (r: Json)
    ensures
        r@ == setting(requested@, env_default@, effective@),
{
    let known = !effective.is_null();
    Json::object().with("requested", requested).with("env_default", env_default).with(
        "effective",
        effective,
    ).with("effective_known", Json::Bool(known))
}

pub(crate) fn plain_setting_value(requested: Json, effective: Json) -> (r: Json)
    ensures
        r@ == plain_setting(requested@, effective@),
{
    let known = !effective.is_null();
    Json::object().with("requested", requested).with("effective", effective).with(
        "effective_known",
        Json::Bool(known),
    )
}

fn environment_provers(env: &WpEnvironment) -> (r: Option<Vec<String>>)
    ensures
        crate::reload::opt_texts(r) == env_provers(*env),
{
    match parse_wp_provers(as_str_of(&env.provers)) {
        Ok(v) => v,
        Err(_) => None,
    }
}

fn used_provers(params: &RunWpParams, env: &WpEnvironment) -> (r: Option<Vec<String>>)
    ensures
        crate::reload::opt_texts(r) == reported_provers(*params, *env),
{
    match requested_wp_provers(params) {
        Ok(Some(v)) => Some(v),
        _ => environment_provers(env),
    }
}

pub(crate) fn environment_number(name: &str, value: &Option<String>) -> (r: Option<u32>)
    ensures
        crate::alarms::opt_u32(r) == env_number(name@, *value),
{
    match parse_wp_u32(name, as_str_of(value)) {
        Ok(n) => n,
        Err(_) => None,
    }
}

pub(crate) fn push_pair(out: &mut Vec<String>, name: &str, value: Option<String>)
    ensures
        texts(final(out)@) == texts(old(out)@) + option_pair(name@, opt_string(value)),
{
    let ghost before = texts(out@);
    match value {
        Some(v) => {
            out.push(owned(name));
            out.push(v);
        },
        None => {},
    }
    assert(texts(out@) =~= before + option_pair(name@, opt_string(value)));
}

pub(crate) fn number_text(n: Option<u32>) -> (r: Option<String>)
    ensures
        opt_string(r) == opt_decimal(crate::alarms::opt_u32(n)),
{
    match n {
        Some(k) => Some(decimal_text(k as u64)),
        None => None,
    }
}

fn number_or(asked: Option<u32>, env: Option<u32>) -> (r: Option<u32>)
    ensures
        crate::alarms::opt_u32(r) == reported_number(asked, crate::alarms::opt_u32(env)),
{
    match asked {
        Some(n) => Some(n),
        None => env,
    }
}

/// The options that a run amounts to on a command line.
pub fn wp_command_options(params: &RunWpParams, env: &WpEnvironment, rte: bool) -> (r: Vec<String>)
    ensures
        texts(r@) == wp_options(*params, *env, rte),
{
    let model = match &params.model {
        Some(m) => m.as_str(),
        None => default_wp_model(),
    };
    let mut out: Vec<String> = vec![owned("-wp"), owned("-wp-model"), owned(model)];
    assert(texts(out@) =~= seq!["-wp"@, "-wp-model"@, used_model(*params)]);
    let provers = match used_provers(params, env) {
        Some(v) => Some(join(&v, ",")),
        None => None,
    };
    push_pair(&mut out, "-wp-prover", provers);
    if rte {
        let ghost before = texts(out@);
        out.push(owned("-wp-rte"));
        assert(texts(out@) =~= before + seq!["-wp-rte"@]);
    } else {
        assert(texts(out@) =~= texts(out@) + Seq::empty());
    }
    let timeout = number_or(params.timeout, environment_number("FRAMAC_TIMEOUT", &env.timeout));
    push_pair(&mut out, "-wp-timeout", number_text(timeout));
    let par = number_or(params.par, environment_number("FRAMAC_PAR", &env.par));
    push_pair(&mut out, "-wp-par", number_text(par));
    let prop = match &params.prop {
        Some(p) => Some(owned(p.as_str())),
        None => None,
    };
    push_pair(&mut out, "-wp-prop", prop);
    out
}

/// The settings of a run, as they are reported.
pub fn wp_effective_config(
    tasks: &Json,
    params: &RunWpParams,
    env: &WpEnvironment,
    functions: &Vec<String>,
    scope: &str,
    rte: bool,
) -> (r: Json)
    ensures
        r@ == wp_config(tasks@, *params, *env, texts(functions@), scope@, rte),
{
    let model = match &params.model {
        Some(m) => m.as_str(),
        None => default_wp_model(),
    };
    let asked = match &params.provers {
        Some(v) => Json::strings(v),
        None => opt_value_text(&params.prover),
    };
    let provers = setting_value(
        asked,
        names_or_null(&environment_provers(env)),
        names_or_null(&used_provers(params, env)),
    );
    let env_timeout = environment_number("FRAMAC_TIMEOUT", &env.timeout);
    let timeout = setting_value(
        crate::alarms::json_opt_u32(params.timeout),
        crate::alarms::json_opt_u32(env_timeout),
        crate::alarms::json_opt_u32(number_or(params.timeout, env_timeout)),
    );
    let env_par = environment_number("FRAMAC_PAR", &env.par);
    let par = setting_value(
        crate::alarms::json_opt_u32(params.par),
        crate::alarms::json_opt_u32(env_par),
        crate::alarms::json_opt_u32(number_or(params.par, env_par)),
    );
    let prop = plain_setting_value(opt_value_text(&params.prop), opt_value_text(&params.prop));
    let mode = match effective_wp_cache(params) {
        Ok(m) => Json::str(m),
        Err(_) => Json::Null,
    };
    let cache = plain_setting_value(opt_value_text(&params.cache), mode);
    let keys: Vec<&'static str> = vec!["id", "task_id", "taskId"];
    assert(slices(keys@) =~= seq!["id"@, "task_id"@, "taskId"@]);
    let ids = collect_json_string_fields(tasks, &keys);
    Json::object().with("scope", Json::str(scope)).with(
        "functions",
        Json::strings(functions),
    ).with("model", Json::str(model)).with("arithmetic_model", Json::Null).with(
        "provers",
        provers,
    ).with("timeout_seconds", timeout).with("parallel", par).with("prop", prop).with(
        "cache",
        cache,
    ).with("rte", Json::Bool(rte)).with("split_strategy", Json::Null).with(
        "raw_task_ids",
        Json::strings(&ids),
    )
}

/// What a run answers, once its settings are reported and its timeouts and failures are judged.
pub fn wp_run_answer(
    tasks: Json,
    config: Json,
    options: &Vec<String>,
    frama_c_protocol: Vec<Json>,
    triage: Json,
    failure_kind: &str,
    proofread_report: Option<Json>,
) -> (r: Json)
    ensures
        r@ == run_answer(
            tasks@,
            config@,
            texts(options@),
            models(frama_c_protocol@),
            triage@,
            failure_kind@,
            opt_value(proofread_report),
        ),
{
    let base = if tasks.is_object() {
        tasks
    } else {
        Json::object().with("tasks", tasks)
    };
    let answer = base.with("effective_wp_config", config).with(
        "frama_c_options",
        Json::strings(options),
    ).with("frama_c_protocol", Json::array(frama_c_protocol)).with(
        "wp_timeout_triage",
        triage,
    ).with("failure_kind", Json::str(failure_kind));
    match proofread_report {
        Some(r) => answer.with("proofread_report", r),
        None => answer,
    }
}

/// What a run answers.
pub fn wp_run_response(
    tasks: Json,
    params: &RunWpParams,
    env: &WpEnvironment,
    functions: &Vec<String>,
    scope: &str,
    rte_enabled: bool,
    frama_c_protocol: Vec<Json>,
    proofread_report: Option<Json>,
) -> (r: Json)
    ensures
        ({
            let text = json_text(collected(tasks@));
            let triage = run_triage(tasks@, text, opt_value(proofread_report));
            r@ == run_answer(
                tasks@,
                wp_config(tasks@, *params, *env, texts(functions@), scope@, rte_enabled),
                wp_options(*params, *env, rte_enabled),
                models(frama_c_protocol@),
                triage,
                tasks_failure_kind(tasks@, triage, text),
                opt_value(proofread_report),
            )
        }),
{
    let options = wp_command_options(params, env, rte_enabled);
    let config = wp_effective_config(&tasks, params, env, functions, scope, rte_enabled);
    let triage = match &proofread_report {
        Some(r) => wp_timeout_triage_from_tasks_and_report(&tasks, Some(r)),
        None => wp_timeout_triage_from_tasks_and_report(&tasks, None),
    };
    let failure_kind = wp_failure_kind_from_tasks(&tasks, &triage);
    wp_run_answer(
        tasks,
        config,
        &options,
        frama_c_protocol,
        triage,
        failure_kind,
        proofread_report,
    )
}

/// What WP's plug-in is told: the model, the properties and the number of provers, as far as they
/// are named.
pub open spec fn plugin_config(model: Seq<char>, prop: Option<Seq<char>>, par: Option<u32>) -> JsonView {
    let config = JsonView::object().with("model"@, JsonView::Str(model));
    let config = match prop {
        Some(p) => config.with("prop"@, JsonView::Str(p)),
        None => config,
    };
    match par {
        Some(n) => config.with("par"@, JsonView::num(n as int)),
        None => config,
    }
}

/// What WP's plug-in is told.
pub fn wp_plugin_config(model: &str, prop: &Option<String>, par: Option<u32>) -> (r: Json)
    ensures
        r@ == plugin_config(model@, opt_string(*prop), par),
{
    let mut config = Json::object().with("model", Json::str(model));
    match prop {
        Some(p) => {
            config = config.with("prop", Json::str(p.as_str()));
        },
        None => {},
    }
    match par {
        Some(n) => config.with("par", Json::num(n as u64)),
        None => config,
    }
}

/// What a receipt repeats of a run's own judgement.
pub fn run_wp_reported(response: &Json) -> (r: Json)
    ensures
        r@ == JsonView::object().with(
            "failure_kind"@,
            JsonView::or_null(response@.get("failure_kind"@)),
        ).with("wp_timeout_triage"@, JsonView::or_null(response@.get("wp_timeout_triage"@))),
{
    Json::object().with("failure_kind", Json::or_null(response.get("failure_kind"))).with(
        "wp_timeout_triage",
        Json::or_null(response.get("wp_timeout_triage")),
    )
}

// ---------------------------------------------------------------------------
// What holds of the settings of a run
// ---------------------------------------------------------------------------

/// Every prover that is installed is used: Alt-Ergo always, the others where they are there.
pub proof fn law_installed_provers_are_used()
    ensures
        installed_provers(false, false) == "Alt-Ergo"@,
        installed_provers(true, false) == "Alt-Ergo,CVC5"@,
        installed_provers(false, true) == "Alt-Ergo,Z3"@,
        installed_provers(true, true) == "Alt-Ergo,CVC5,Z3"@,
{
    reveal_strlit("Alt-Ergo");
    reveal_strlit(",CVC5");
    reveal_strlit(",Z3");
    reveal_strlit("Alt-Ergo,CVC5");
    reveal_strlit("Alt-Ergo,Z3");
    reveal_strlit("Alt-Ergo,CVC5,Z3");
    assert(installed_provers(false, false) =~= "Alt-Ergo"@);
    assert(installed_provers(true, false) =~= "Alt-Ergo,CVC5"@);
    assert(installed_provers(false, true) =~= "Alt-Ergo,Z3"@);
    assert(installed_provers(true, true) =~= "Alt-Ergo,CVC5,Z3"@);
}

/// The names of a list are its pieces without the white space around them; blank pieces name
/// nothing, and a list that names nothing is refused.
pub proof fn law_a_list_of_provers_is_read(parts: Seq<Seq<char>>, part: Seq<char>, v: Seq<char>)
    ensures
        trim_spec(part).len() > 0 ==> named(parts.push(part)) == named(parts).push(trim_spec(part)),
        trim_spec(part).len() == 0 ==> named(parts.push(part)) == named(parts),
        named(pieces(v, ',')).len() > 0 ==> provers_in(Some(v)) == Ok::<_, Seq<char>>(
            Some(named(pieces(v, ','))),
        ),
        named(pieces(v, ',')).len() == 0 ==> provers_in(Some(v)) == Err::<
            Option<Seq<Seq<char>>>,
            Seq<char>,
        >("FRAMAC_PROVERS must name at least one prover"@),
        provers_in(None) == Ok::<Option<Seq<Seq<char>>>, Seq<char>>(None),
{
    assert(parts.push(part).drop_last() =~= parts);
}

/// One prover can be asked for, or a list of them, not both; every name is taken without the white
/// space around it, and none may be blank.
pub proof fn law_provers_that_are_asked_for(p: RunWpParams, i: int)
    ensures
        p.prover is Some && p.provers is Some ==> requested_provers(p) == Err::<
            Option<Seq<Seq<char>>>,
            Seq<char>,
        >("use either prover or provers, not both"@),
        p.prover is Some && p.provers is None && trim_spec(p.prover->0@).len() > 0
            ==> requested_provers(p) == Ok::<_, Seq<char>>(Some(seq![trim_spec(p.prover->0@)])),
        p.prover is None && p.provers is Some && 0 <= i < p.provers->0@.len() && trim_spec(
            p.provers->0@[i]@,
        ).len() == 0 ==> requested_provers(p) is Err,
        p.prover is None && p.provers is Some && p.provers->0@.len() == 0 ==> requested_provers(p)
            is Err,
        p.prover is None && p.provers is Some && 0 <= i < p.provers->0@.len() && requested_provers(
            p,
        ) is Ok ==> requested_provers(p)->Ok_0 is Some && requested_provers(p)->Ok_0->0.len()
            == p.provers->0@.len() && requested_provers(p)->Ok_0->0[i] == trim_spec(
            p.provers->0@[i]@,
        ),
        p.prover is None && p.provers is None ==> requested_provers(p) == Ok::<
            Option<Seq<Seq<char>>>,
            Seq<char>,
        >(None),
{
    if p.prover is Some && p.provers is None {
        let one = seq![p.prover->0@];
        assert(trimmed(one) =~= seq![trim_spec(p.prover->0@)]);
        assert forall|j: int| 0 <= j < trimmed(one).len() implies (#[trigger] trimmed(
            one,
        )[j]).len() > 0 || trim_spec(p.prover->0@).len() == 0 by {}
    }
    if p.prover is None && p.provers is Some && 0 <= i < p.provers->0@.len() {
        let all = texts(p.provers->0@);
        assert(all[i] == p.provers->0@[i]@);
        assert(trimmed(all)[i] == trim_spec(p.provers->0@[i]@));
    }
}

/// A number of the environment is read whatever white space is around it; what is no number is told
/// by its name; parallelism is at least one.
pub proof fn law_a_number_of_the_environment_is_read(
    p: RunWpParams,
    name: Seq<char>,
    before: Seq<char>,
    n: nat,
    after: Seq<char>,
    v: Seq<char>,
)
    requires
        n <= u32::MAX,
        crate::text::all_white(before),
        crate::text::all_white(after),
    ensures
        number_in(name, Some(before + decimal(n) + after)) == Ok::<_, Seq<char>>(Some(n as int)),
        number_in(name, None) == Ok::<Option<int>, Seq<char>>(None),
        parse_spec(trim_spec(v), u32::MAX as nat) is None ==> number_in(name, Some(v)) == Err::<
            Option<int>,
            Seq<char>,
        >(name + " must be a non-negative integer"@),
        p.timeout is None ==> effective_timeout(p, Some(decimal(n))) == Ok::<_, Seq<char>>(
            Some(n as int),
        ),
        p.timeout is Some ==> effective_timeout(p, Some(v)) == Ok::<_, Seq<char>>(
            Some(p.timeout->0 as int),
        ),
        p.timeout is None && parse_spec(trim_spec(v), u32::MAX as nat) is None
            ==> effective_timeout(p, Some(v)) == Err::<Option<int>, Seq<char>>(
            "FRAMAC_TIMEOUT"@ + " must be a non-negative integer"@,
        ),
        p.par is None && n > 0 ==> effective_par(p, Some(decimal(n))) == Ok::<_, Seq<char>>(
            Some(n as int),
        ),
        p.par is None && parse_spec(trim_spec(v), u32::MAX as nat) is None ==> effective_par(
            p,
            Some(v),
        ) == Err::<Option<int>, Seq<char>>("FRAMAC_PAR"@ + " must be a non-negative integer"@),
        p.par == Some(0u32) ==> effective_par(p, Some(v)) == Err::<Option<int>, Seq<char>>(
            "WP parallelism must be at least 1"@,
        ),
        p.par is Some && p.par->0 > 0 ==> effective_par(p, Some(v)) == Ok::<_, Seq<char>>(
            Some(p.par->0 as int),
        ),
{
    crate::text::lemma_decimal_is_a_word(n);
    crate::text::law_decimal_round_trip(n, u32::MAX as nat);
    crate::text::law_trimming_takes_the_white_space_around(before, decimal(n), after);
    let none = Seq::<char>::empty();
    crate::text::law_trimming_takes_the_white_space_around(none, decimal(n), none);
    assert(none + decimal(n) + none =~= decimal(n));
}

/// The mode of the cache is found by its name in any case; Update is used where none is asked for.
pub proof fn law_a_cache_mode_is_found_in_any_case(requested: Seq<char>, p: RunWpParams)
    ensures
        ascii_lower(trim_spec(requested)) == ascii_lower("None"@) ==> cache_mode(requested) == Some(
            "None"@,
        ),
        ascii_lower(trim_spec(requested)) == ascii_lower("Update"@) ==> cache_mode(requested)
            == Some("Update"@),
        ascii_lower(trim_spec(requested)) == ascii_lower("Replay"@) ==> cache_mode(requested)
            == Some("Replay"@),
        ascii_lower(trim_spec(requested)) == ascii_lower("Rebuild"@) ==> cache_mode(requested)
            == Some("Rebuild"@),
        ascii_lower(trim_spec(requested)) == ascii_lower("Offline"@) ==> cache_mode(requested)
            == Some("Offline"@),
        ascii_lower(trim_spec(requested)) == ascii_lower("Cleanup"@) ==> cache_mode(requested)
            == Some("Cleanup"@),
        cache_mode(requested) is Some ==> ascii_lower(cache_mode(requested)->0) == ascii_lower(
            trim_spec(requested),
        ),
        p.cache is None ==> asked_cache(p) == "Update"@,
        p.cache is Some ==> asked_cache(p) == p.cache->0@,
{
    reveal_strlit("None");
    reveal_strlit("Update");
    reveal_strlit("Replay");
    reveal_strlit("Rebuild");
    reveal_strlit("Offline");
    reveal_strlit("Cleanup");
    let a = ascii_lower("None"@);
    let b = ascii_lower("Update"@);
    let c = ascii_lower("Replay"@);
    let d = ascii_lower("Rebuild"@);
    let e = ascii_lower("Offline"@);
    let f = ascii_lower("Cleanup"@);
    assert(a.len() == 4 && b.len() == 6 && c.len() == 6 && d.len() == 7 && e.len() == 7 && f.len()
        == 7);
    assert(b[0] == 'u' && c[0] == 'r' && d[0] == 'r' && e[0] == 'o' && f[0] == 'c');
    reveal_with_fuel(mode_from, 7);
}

/// A prover is meant by its name in any case, with or without the prefix of Why3; a version that is
/// asked for must be the one that is installed, and without one any will do.
pub proof fn law_a_prover_is_meant_by_its_name(
    name: Seq<char>,
    version: Seq<char>,
    other: Seq<char>,
)
    requires
        !name.contains(':'),
        !begins(name, "why3"@),
    ensures
        means_prover(name, name),
        means_prover("why3:"@ + name, name),
        means_prover(name, "why3:"@ + name),
        means_prover(name, name + ":"@ + version),
        means_prover(name + ":"@ + version, name + ":"@ + version),
        !means_prover(name + ":"@ + version, name),
        ascii_lower(version) != ascii_lower(other) ==> !means_prover(
            name + ":"@ + version,
            name + ":"@ + other,
        ),
{
    reveal_strlit(":");
    reveal_strlit("why3:");
    reveal_strlit("why3");
    assert(":"@[0] == ':');
    lemma_prover_parts(name);
    crate::text::law_split_at_the_mark(name, ":"@, version);
    crate::text::law_split_at_the_mark(name, ":"@, other);
    lemma_no_prefix(name, ":"@ + version);
    lemma_no_prefix(name, ":"@ + other);
    assert(name + (":"@ + version) =~= name + ":"@ + version);
    assert(name + (":"@ + other) =~= name + ":"@ + other);
    assert(prover_parts(name + ":"@ + version) == (name, Some(version)));
    assert(prover_parts(name + ":"@ + other) == (name, Some(other)));
    assert(prover_parts(name) == (name, None::<Seq<char>>));
    assert(("why3:"@ + name).subrange(0, 5) =~= "why3:"@);
    assert(("why3:"@ + name).subrange(5, (5 + name.len()) as int) =~= name);
    assert(prover_parts("why3:"@ + name) == (name, None::<Seq<char>>));
}

proof fn lemma_no_prefix(name: Seq<char>, rest: Seq<char>)
    requires
        !begins(name, "why3"@),
        !name.contains(':'),
        rest.len() == 0 || rest[0] == ':',
    ensures
        !begins(name + rest, "why3:"@),
{
    reveal_strlit("why3");
    reveal_strlit("why3:");
    if begins(name + rest, "why3:"@) {
        assert((name + rest).subrange(0, 5)[4] == ':');
        assert forall|j: int| 0 <= j < 4 implies (name + rest)[j] == "why3"@[j] by {
            assert((name + rest).subrange(0, 5)[j] == "why3:"@[j]);
        }
        let t = name + rest;
        assert(t[0] == "why3"@[0] && t[1] == "why3"@[1] && t[2] == "why3"@[2] && t[3]
            == "why3"@[3]);
        assert(t[0] == 'w' && t[1] == 'h' && t[2] == 'y' && t[3] == '3');
        if name.len() >= 4 {
            assert(name.subrange(0, 4) =~= "why3"@);
        } else {
            assert((name + rest)[name.len() as int] == rest[0]);
        }
    }
}

proof fn lemma_prover_parts(name: Seq<char>)
    requires
        !name.contains(':'),
        !begins(name, "why3"@),
    ensures
        split_once_spec(name, ":"@) is None,
        prover_parts(name) == (name, None::<Seq<char>>),
{
    reveal_strlit(":");
    if split_once_spec(name, ":"@) is Some {
        let i = choose|i: int| crate::text::first_at(name, ":"@, 0, i);
        assert(crate::text::stands_at(name, ":"@, i));
        assert(name.subrange(i, i + 1)[0] == name[i]);
        assert(name.contains(name[i]));
    }
    lemma_no_prefix(name, Seq::empty());
    assert(name + Seq::<char>::empty() =~= name);
}

/// Every prover that Frama-C offers is switched on exactly where one that is asked for means it.
pub proof fn law_the_selection_switches_what_is_meant(
    requested: Seq<Seq<char>>,
    ids: Seq<Seq<char>>,
    i: int,
    k: int,
)
    requires
        0 <= i < ids.len(),
    ensures
        selection(requested, ids).len() == ids.len(),
        selection(requested, ids)[i].0 == ids[i],
        0 <= k < requested.len() && means_prover(requested[k], ids[i]) ==> selection(
            requested,
            ids,
        )[i].1,
        (forall|j: int| 0 <= j < requested.len() ==> !means_prover(#[trigger] requested[j], ids[i]))
            ==> !selection(requested, ids)[i].1,
{
    assert(selection(requested, ids)[i] == (ids[i], is_requested(requested, ids[i])));
}

/// The options of a run name its model, its provers, its timeout, its parallelism and its
/// properties, each behind its own switch, and runtime checks exactly where they are wanted.
pub proof fn law_the_options_of_a_run(p: RunWpParams, env: WpEnvironment, rte: bool, v: Seq<Seq<char>>)
    ensures
        wp_options(p, env, rte)[0] == "-wp"@,
        wp_options(p, env, rte)[1] == "-wp-model"@,
        p.model is Some ==> wp_options(p, env, rte)[2] == p.model->0@,
        p.model is None ==> wp_options(p, env, rte)[2] == "Typed+nocast"@,
        reported_provers(p, env) == Some(v) ==> wp_options(p, env, rte)[3] == "-wp-prover"@
            && wp_options(p, env, rte)[4] == join_spec(v, ","@),
        rte && reported_provers(p, env) is None ==> wp_options(p, env, rte)[3] == "-wp-rte"@,
        rte && reported_provers(p, env) is Some ==> wp_options(p, env, rte)[5] == "-wp-rte"@,
        !rte && reported_provers(p, env) is None && p.timeout is Some ==> wp_options(
            p,
            env,
            rte,
        )[3] == "-wp-timeout"@ && wp_options(p, env, rte)[4] == decimal(p.timeout->0 as nat),
        p.prop is Some ==> wp_options(p, env, rte).last() == p.prop->0@ && wp_options(
            p,
            env,
            rte,
        )[wp_options(p, env, rte).len() - 2] == "-wp-prop"@,
        p.prop is None && p.par is Some ==> wp_options(p, env, rte).last() == decimal(
            p.par->0 as nat,
        ) && wp_options(p, env, rte)[wp_options(p, env, rte).len() - 2] == "-wp-par"@,
{
}

/// What was asked for, what the environment says and what is used stand under their own names.
pub proof fn law_a_setting_tells_where_it_comes_from(
    requested: JsonView,
    env_default: JsonView,
    effective: JsonView,
)
    ensures
        setting(requested, env_default, effective).get("requested"@) == Some(requested),
        setting(requested, env_default, effective).get("env_default"@) == Some(env_default),
        setting(requested, env_default, effective).get("effective"@) == Some(effective),
        setting(requested, env_default, effective).flag("effective_known"@) == Some(
            effective != JsonView::Null,
        ),
        plain_setting(requested, effective).get("requested"@) == Some(requested),
        plain_setting(requested, effective).get("effective"@) == Some(effective),
        plain_setting(requested, effective).flag("effective_known"@) == Some(
            effective != JsonView::Null,
        ),
{
    broadcast use crate::json::group_object_reads;

    reveal_strlit("requested");
    reveal_strlit("env_default");
    reveal_strlit("effective");
    reveal_strlit("effective_known");
    assert("requested"@.len() == 9 && "env_default"@.len() == 11);
    assert("effective"@.len() == 9 && "effective_known"@.len() == 15);
    assert("requested"@[0] != "effective"@[0]);
}

/// What is reported of the settings of a run: each under its own name, as it was asked for, as the
/// environment has it, and as it is used.
pub proof fn law_the_settings_of_a_run_are_reported(
    tasks: JsonView,
    p: RunWpParams,
    env: WpEnvironment,
    functions: Seq<Seq<char>>,
    scope: Seq<char>,
    rte: bool,
)
    ensures
        ({
            let c = wp_config(tasks, p, env, functions, scope, rte);
            &&& c.text("scope"@) == Some(scope)
            &&& c.get("functions"@) == Some(JsonView::strings(functions))
            &&& p.model is Some ==> c.text("model"@) == Some(p.model->0@)
            &&& p.model is None ==> c.text("model"@) == Some("Typed+nocast"@)
            &&& c.flag("rte"@) == Some(rte)
            &&& p.timeout is Some ==> c.at("timeout_seconds"@, "effective"@) == Some(
                JsonView::num(p.timeout->0 as int),
            ) && c.at("timeout_seconds"@, "requested"@) == Some(
                JsonView::num(p.timeout->0 as int),
            )
            &&& p.par is Some ==> c.at("parallel"@, "effective"@) == Some(
                JsonView::num(p.par->0 as int),
            )
            &&& p.prop is Some ==> c.at("prop"@, "effective"@) == Some(
                JsonView::Str(p.prop->0@),
            )
            &&& c.at("provers"@, "effective"@) == Some(opt_names(reported_provers(p, env)))
            &&& c.at("provers"@, "env_default"@) == Some(opt_names(env_provers(env)))
            &&& p.provers is Some ==> c.at("provers"@, "requested"@) == Some(
                JsonView::strings(texts(p.provers->0@)),
            )
            &&& c.at("cache"@, "effective"@) == Some(
                JsonView::opt_text(cache_mode(asked_cache(p))),
            )
        }),
{
    broadcast use crate::json::group_object_reads;

    reveal_strlit("scope");
    reveal_strlit("functions");
    reveal_strlit("model");
    reveal_strlit("arithmetic_model");
    reveal_strlit("provers");
    reveal_strlit("timeout_seconds");
    reveal_strlit("parallel");
    reveal_strlit("prop");
    reveal_strlit("cache");
    reveal_strlit("rte");
    reveal_strlit("split_strategy");
    reveal_strlit("raw_task_ids");
    assert("scope"@.len() == 5 && "functions"@.len() == 9);
    assert("model"@.len() == 5 && "arithmetic_model"@.len() == 16);
    assert("provers"@.len() == 7 && "timeout_seconds"@.len() == 15);
    assert("parallel"@.len() == 8 && "prop"@.len() == 4);
    assert("cache"@.len() == 5 && "rte"@.len() == 3);
    assert("split_strategy"@.len() == 14 && "raw_task_ids"@.len() == 12);
    assert("scope"@[0] != "model"@[0]);
    assert("scope"@[0] != "cache"@[0]);
    assert("model"@[0] != "cache"@[0]);
    reveal_strlit("requested");
    reveal_strlit("env_default");
    reveal_strlit("effective");
    reveal_strlit("effective_known");
    assert("requested"@.len() == 9 && "env_default"@.len() == 11);
    assert("effective"@.len() == 9 && "effective_known"@.len() == 15);
    assert("requested"@[0] != "effective"@[0]);
}

/// The answer to a run keeps what is said of its tasks and adds the settings, the options, the
/// protocol, what is made of timeouts, the kind of failure, and the report where there is one.
pub proof fn law_a_run_is_answered(
    tasks: JsonView,
    config: JsonView,
    options: Seq<Seq<char>>,
    protocol: Seq<JsonView>,
    triage: JsonView,
    kind: Seq<char>,
    report: JsonView,
    key: Seq<char>,
)
    requires
        tasks is Object,
        key != "effective_wp_config"@,
        key != "frama_c_options"@,
        key != "frama_c_protocol"@,
        key != "wp_timeout_triage"@,
        key != "failure_kind"@,
        key != "proofread_report"@,
    ensures
        ({
            let a = run_answer(tasks, config, options, protocol, triage, kind, Some(report));
            &&& a.get(key) == tasks.get(key)
            &&& a.get("effective_wp_config"@) == Some(config)
            &&& a.get("frama_c_options"@) == Some(JsonView::strings(options))
            &&& a.get("frama_c_protocol"@) == Some(JsonView::Array(protocol))
            &&& a.get("wp_timeout_triage"@) == Some(triage)
            &&& a.text("failure_kind"@) == Some(kind)
            &&& a.get("proofread_report"@) == Some(report)
        }),
        run_answer(JsonView::Null, config, options, protocol, triage, kind, None).get("tasks"@)
            == Some(JsonView::Null),
{
    broadcast use crate::json::group_object_reads;

    reveal_strlit("tasks");
    reveal_strlit("effective_wp_config");
    reveal_strlit("frama_c_options");
    reveal_strlit("frama_c_protocol");
    reveal_strlit("wp_timeout_triage");
    reveal_strlit("failure_kind");
    reveal_strlit("proofread_report");
    assert("tasks"@.len() == 5 && "effective_wp_config"@.len() == 19);
    assert("frama_c_options"@.len() == 15 && "frama_c_protocol"@.len() == 16);
    assert("wp_timeout_triage"@.len() == 17 && "failure_kind"@.len() == 12);
    assert("proofread_report"@.len() == 16);
    assert("frama_c_protocol"@[0] != "proofread_report"@[0]);
}

/// The plugin is told the model, and the properties and the parallelism where they are set.
pub proof fn law_the_plugin_is_told_what_is_set(model: Seq<char>, prop: Seq<char>, par: u32)
    ensures
        ({
            let c = plugin_config(model, Some(prop), Some(par));
            &&& c.text("model"@) == Some(model)
            &&& c.text("prop"@) == Some(prop)
            &&& c.get("par"@) == Some(JsonView::num(par as int))
        }),
        plugin_config(model, None, None).text("model"@) == Some(model),
        plugin_config(model, None, None).get("prop"@) is None,
        plugin_config(model, None, None).get("par"@) is None,
        plugin_config(model, None, Some(par)).get("par"@) == Some(JsonView::num(par as int)),
        plugin_config(model, Some(prop), None).text("prop"@) == Some(prop),
{
    broadcast use crate::json::group_object_reads;

    reveal_strlit("model");
    reveal_strlit("prop");
    reveal_strlit("par");
    assert("model"@.len() == 5 && "prop"@.len() == 4);
    assert("par"@.len() == 3);
}

/// The text under one of the keys is found wherever it stands.
pub proof fn law_texts_are_found_under_their_keys(
    v: JsonView,
    other: JsonView,
    key: Seq<char>,
    t: Seq<char>,
    keys: Seq<Seq<char>>,
)
    ensures
        keys.contains(key) ==> field_texts(JsonView::Object(seq![(key, JsonView::Str(t))]), keys)
            == seq![t],
        !keys.contains(key) ==> field_texts(
            JsonView::Object(seq![(key, JsonView::Str(t))]),
            keys,
        ).len() == 0,
        field_texts(JsonView::Array(seq![v, other]), keys) == field_texts(v, keys) + field_texts(
            other,
            keys,
        ),
        field_texts(JsonView::Object(seq![(key, JsonView::Array(seq![v]))]), keys) == field_texts(
            v,
            keys,
        ),
{
    let one = seq![(key, JsonView::Str(t))];
    assert(one.drop_last() =~= Seq::empty());
    reveal_with_fuel(entry_texts, 2);
    reveal_with_fuel(list_texts, 3);
    reveal_with_fuel(field_texts, 3);
    assert(entry_texts(one.drop_last(), keys) =~= Seq::empty());
    assert(field_texts(JsonView::Str(t), keys) =~= Seq::empty());
    assert(field_texts(JsonView::Object(one), keys) =~= entry_text(one.last(), keys));
    let two = seq![v, other];
    assert(two.drop_last() =~= seq![v]);
    assert(seq![v].drop_last() =~= Seq::empty());
    assert(list_texts(seq![v], keys) =~= field_texts(v, keys));
    assert(list_texts(two, keys) =~= field_texts(v, keys) + field_texts(other, keys));
    let deep = seq![(key, JsonView::Array(seq![v]))];
    assert(deep.drop_last() =~= Seq::empty());
    assert(field_texts(JsonView::Array(seq![v]), keys) == list_texts(seq![v], keys));
    assert(entry_texts(deep, keys) =~= list_texts(seq![v], keys));
}

/// A list in a message shows every name, quoted, in order.
pub proof fn law_a_list_is_shown_whole(a: Seq<char>, b: Seq<char>)
    ensures
        debug_list(seq![a]) == "["@ + debug_quoted(a) + "]"@,
        debug_list(seq![a, b]) == "["@ + debug_quoted(a) + ", "@ + debug_quoted(b) + "]"@,
{
    let one = seq![a].map_values(|t: Seq<char>| debug_quoted(t));
    let two = seq![a, b].map_values(|t: Seq<char>| debug_quoted(t));
    reveal_with_fuel(join_spec, 3);
    assert(one =~= seq![debug_quoted(a)]);
    assert(two =~= seq![debug_quoted(a), debug_quoted(b)]);
    assert(one.drop_last() =~= Seq::empty());
    assert(two.drop_last() =~= one);
    assert(join_spec(one, ", "@) =~= debug_quoted(a));
    assert(join_spec(two, ", "@) =~= debug_quoted(a) + ", "@ + debug_quoted(b));
    assert(debug_list(seq![a, b]) =~= "["@ + debug_quoted(a) + ", "@ + debug_quoted(b) + "]"@);
}

} // verus!
