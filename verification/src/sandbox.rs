//! Sandboxes: a Frama-C of its own for one function. Which there are, how they are listed, when
//! one can be made, and what is recorded of it.

use crate::error::{ToolError, ToolErrorView};
use crate::json::{lemma_take_next, models, opt_value, str_or, text_or, Json, JsonView};
use crate::labels::{all_hex, random_hex};
use crate::markers::copy_opt;
use crate::order::{lemma_place_is, lt, sort_by, text_lt};
use crate::paths::{join_path, joined};
use crate::session::{
    decl_from, decl_marker, scope_for_function, scope_of, FunctionScope, ScopeView,
    VerificationStatus,
};
use crate::store::{require_safe_path_segment, safe_segment, unsafe_segment};
use crate::text::{
    cat3, decimal, decimal_text, lemma_first_at, opt_string, opt_text, own_all, owned, same,
    stands_at, texts, trim, trim_spec,
};
use vstd::prelude::*;

verus! {

// ---------------------------------------------------------------------------
// What is recorded
// ---------------------------------------------------------------------------

/// What is recorded of a sandbox.
pub struct SandboxMetadata {
    pub experiment_id: String,
    pub original_function: String,
    pub sandbox_dir: String,
    pub sandbox_socket: String,
    pub sandbox_pid: u32,
    pub declaration_marker: String,
    pub created_at: String,
    pub last_activity: String,
    pub deleted: bool,
    pub command_line: Vec<String>,
    pub startup_stderr_tail: Option<String>,
    pub stdout_log_path: Option<String>,
    pub stderr_log_path: Option<String>,
}

/// What is recorded of a sandbox, as a mathematical object.
#[verifier::ext_equal]
pub struct SandboxView {
    pub experiment_id: Seq<char>,
    pub original_function: Seq<char>,
    pub sandbox_dir: Seq<char>,
    pub sandbox_socket: Seq<char>,
    pub sandbox_pid: u32,
    pub declaration_marker: Seq<char>,
    pub created_at: Seq<char>,
    pub last_activity: Seq<char>,
    pub deleted: bool,
    pub command_line: Seq<Seq<char>>,
    pub startup_stderr_tail: Option<Seq<char>>,
    pub stdout_log_path: Option<Seq<char>>,
    pub stderr_log_path: Option<Seq<char>>,
}

impl View for SandboxMetadata {
    type V = SandboxView;

    open spec fn view(&self) -> SandboxView {
        SandboxView {
            experiment_id: self.experiment_id@,
            original_function: self.original_function@,
            sandbox_dir: self.sandbox_dir@,
            sandbox_socket: self.sandbox_socket@,
            sandbox_pid: self.sandbox_pid,
            declaration_marker: self.declaration_marker@,
            created_at: self.created_at@,
            last_activity: self.last_activity@,
            deleted: self.deleted,
            command_line: texts(self.command_line@),
            startup_stderr_tail: opt_string(self.startup_stderr_tail),
            stdout_log_path: opt_string(self.stdout_log_path),
            stderr_log_path: opt_string(self.stderr_log_path),
        }
    }
}

impl SandboxMetadata {
    /// The same record.
    pub fn copy(&self) -> (r: SandboxMetadata)
        ensures
            r@ == self@,
    {
        SandboxMetadata {
            experiment_id: owned(self.experiment_id.as_str()),
            original_function: owned(self.original_function.as_str()),
            sandbox_dir: owned(self.sandbox_dir.as_str()),
            sandbox_socket: owned(self.sandbox_socket.as_str()),
            sandbox_pid: self.sandbox_pid,
            declaration_marker: owned(self.declaration_marker.as_str()),
            created_at: owned(self.created_at.as_str()),
            last_activity: owned(self.last_activity.as_str()),
            deleted: self.deleted,
            command_line: own_all(&self.command_line),
            startup_stderr_tail: copy_opt(&self.startup_stderr_tail),
            stdout_log_path: copy_opt(&self.stdout_log_path),
            stderr_log_path: copy_opt(&self.stderr_log_path),
        }
    }
}

/// Records, as views.
pub open spec fn records(v: Seq<SandboxMetadata>) -> Seq<SandboxView> {
    v.map_values(|m: SandboxMetadata| m@)
}

/// How the verification of a function stands, as far as its sandbox is concerned.
pub struct FunctionVerificationState {
    pub status: VerificationStatus,
    pub proof_receipt: Option<Json>,
    pub sandbox_clean: bool,
    pub annotation_count: u64,
    pub ast_stmt_count: Option<u32>,
    pub wp_summary: Option<Json>,
}

// ---------------------------------------------------------------------------
// The registry
// ---------------------------------------------------------------------------

/// The sandboxes that this server runs, of each the record.
pub struct SandboxRegistry {
    entries: Vec<SandboxMetadata>,
}

/// Whether no two records are of one experiment.
pub open spec fn ids_differ(s: Seq<SandboxView>) -> bool {
    forall|i: int, j: int|
        0 <= i < j < s.len() ==> (#[trigger] s[i]).experiment_id != (#[trigger] s[j]).experiment_id
}

/// Which sandboxes there are, by experiment.
pub open spec fn by_id(s: Seq<SandboxView>) -> Map<Seq<char>, SandboxView>
    decreases s.len(),
{
    if s.len() == 0 {
        Map::empty()
    } else {
        by_id(s.drop_last()).insert(s.last().experiment_id, s.last())
    }
}

impl View for SandboxRegistry {
    type V = Map<Seq<char>, SandboxView>;

    closed spec fn view(&self) -> Map<Seq<char>, SandboxView> {
        by_id(records(self.entries@))
    }
}

proof fn lemma_by_id(s: Seq<SandboxView>)
    requires
        ids_differ(s),
    ensures
        forall|i: int|
            0 <= i < s.len() ==> by_id(s).dom().contains((#[trigger] s[i]).experiment_id)
                && by_id(s)[s[i].experiment_id] == s[i],
        forall|id: Seq<char>|
            by_id(s).dom().contains(id) ==> exists|i: int|
                0 <= i < s.len() && (#[trigger] s[i]).experiment_id == id,
        by_id(s).dom().finite(),
        by_id(s).dom().len() == s.len(),
    decreases s.len(),
{
    if s.len() > 0 {
        let t = s.drop_last();
        assert(ids_differ(t)) by {
            assert forall|i: int, j: int| 0 <= i < j < t.len() implies (#[trigger] t[i]).experiment_id
                != (#[trigger] t[j]).experiment_id by {
                assert(t[i] == s[i] && t[j] == s[j]);
            }
        }
        lemma_by_id(t);
        let x = s.last();
        assert(!by_id(t).dom().contains(x.experiment_id)) by {
            if by_id(t).dom().contains(x.experiment_id) {
                let i = choose|i: int| 0 <= i < t.len() && (#[trigger] t[i]).experiment_id
                    == x.experiment_id;
                assert(t[i] == s[i]);
                assert(s[i].experiment_id != s[s.len() - 1].experiment_id);
            }
        }
        assert forall|i: int| 0 <= i < s.len() implies by_id(s).dom().contains(
            (#[trigger] s[i]).experiment_id,
        ) && by_id(s)[s[i].experiment_id] == s[i] by {
            if i < t.len() {
                assert(t[i] == s[i]);
                assert(s[i].experiment_id != s[s.len() - 1].experiment_id);
            }
        }
        assert forall|id: Seq<char>| by_id(s).dom().contains(id) implies exists|i: int|
            0 <= i < s.len() && (#[trigger] s[i]).experiment_id == id by {
            if id == x.experiment_id {
                assert(s[s.len() - 1].experiment_id == id);
            } else {
                let i = choose|i: int| 0 <= i < t.len() && (#[trigger] t[i]).experiment_id == id;
                assert(s[i].experiment_id == id);
            }
        }
        assert(by_id(s).dom() =~= by_id(t).dom().insert(x.experiment_id));
    }
}

proof fn lemma_by_id_insert(s: Seq<SandboxView>, k: int, x: SandboxView)
    requires
        ids_differ(s),
        0 <= k <= s.len(),
        k < s.len() ==> s[k].experiment_id == x.experiment_id,
        k == s.len() ==> forall|i: int|
            0 <= i < s.len() ==> (#[trigger] s[i]).experiment_id != x.experiment_id,
    ensures
        k < s.len() ==> ids_differ(s.update(k, x)) && by_id(s.update(k, x)) == by_id(s).insert(
            x.experiment_id,
            x,
        ),
        k == s.len() ==> ids_differ(s.push(x)) && by_id(s.push(x)) == by_id(s).insert(
            x.experiment_id,
            x,
        ),
{
    let t = if k < s.len() {
        s.update(k, x)
    } else {
        s.push(x)
    };
    assert(ids_differ(t)) by {
        assert forall|i: int, j: int| 0 <= i < j < t.len() implies (#[trigger] t[i]).experiment_id
            != (#[trigger] t[j]).experiment_id by {
            if k < s.len() {
                assert(t[i].experiment_id == s[i].experiment_id);
                assert(t[j].experiment_id == s[j].experiment_id);
            } else if j < s.len() {
                assert(t[i] == s[i] && t[j] == s[j]);
            } else {
                assert(t[i] == s[i]);
            }
        }
    }
    lemma_by_id(s);
    lemma_by_id(t);
    let m = by_id(s).insert(x.experiment_id, x);
    assert(t[k] == x);
    assert forall|id: Seq<char>| by_id(t).dom().contains(id) == m.dom().contains(id) by {
        if by_id(t).dom().contains(id) {
            let i = choose|i: int| 0 <= i < t.len() && (#[trigger] t[i]).experiment_id == id;
            if i != k {
                assert(t[i] == s[i]);
            }
        }
        if m.dom().contains(id) && id != x.experiment_id {
            let i = choose|i: int| 0 <= i < s.len() && (#[trigger] s[i]).experiment_id == id;
            assert(t[i] == s[i]);
        }
    }
    assert forall|id: Seq<char>| by_id(t).dom().contains(id) implies by_id(t)[id] == m[id] by {
        let i = choose|i: int| 0 <= i < t.len() && (#[trigger] t[i]).experiment_id == id;
        if i != k {
            assert(t[i] == s[i]);
            assert(id != x.experiment_id) by {
                if id == x.experiment_id {
                    assert(t[k].experiment_id == t[i].experiment_id);
                    if i < k {
                        assert(t[i].experiment_id != t[k].experiment_id);
                    } else {
                        assert(t[k].experiment_id != t[i].experiment_id);
                    }
                }
            }
        }
    }
    assert(by_id(t) =~= m);
}

proof fn lemma_by_id_remove(s: Seq<SandboxView>, k: int)
    requires
        ids_differ(s),
        0 <= k < s.len(),
    ensures
        ids_differ(s.remove(k)),
        by_id(s.remove(k)) == by_id(s).remove(s[k].experiment_id),
{
    let t = s.remove(k);
    let x = s[k];
    assert forall|i: int| 0 <= i < t.len() implies #[trigger] t[i] == s[if i < k {
        i
    } else {
        i + 1
    }] by {}
    assert(ids_differ(t)) by {
        assert forall|i: int, j: int| 0 <= i < j < t.len() implies (#[trigger] t[i]).experiment_id
            != (#[trigger] t[j]).experiment_id by {
            let a = if i < k {
                i
            } else {
                i + 1
            };
            let b = if j < k {
                j
            } else {
                j + 1
            };
            assert(s[a].experiment_id != s[b].experiment_id);
        }
    }
    lemma_by_id(s);
    lemma_by_id(t);
    let m = by_id(s).remove(x.experiment_id);
    assert forall|id: Seq<char>| by_id(t).dom().contains(id) == m.dom().contains(id) by {
        if by_id(t).dom().contains(id) {
            let i = choose|i: int| 0 <= i < t.len() && (#[trigger] t[i]).experiment_id == id;
            let a = if i < k {
                i
            } else {
                i + 1
            };
            assert(t[i] == s[a]);
            if a < k {
                assert(s[a].experiment_id != s[k].experiment_id);
            } else {
                assert(s[k].experiment_id != s[a].experiment_id);
            }
        }
        if m.dom().contains(id) {
            let a = choose|i: int| 0 <= i < s.len() && (#[trigger] s[i]).experiment_id == id;
            let i = if a < k {
                a
            } else {
                a - 1
            };
            assert(t[i] == s[a]);
        }
    }
    assert forall|id: Seq<char>| by_id(t).dom().contains(id) implies by_id(t)[id] == m[id] by {
        let i = choose|i: int| 0 <= i < t.len() && (#[trigger] t[i]).experiment_id == id;
        let a = if i < k {
            i
        } else {
            i + 1
        };
        assert(t[i] == s[a]);
    }
    assert(by_id(t) =~= m);
}

impl SandboxRegistry {
    #[verifier::type_invariant]
    spec fn inv(self) -> bool {
        ids_differ(records(self.entries@))
    }

    /// No sandboxes.
    pub fn new() -> (r: SandboxRegistry)
        ensures
            r@ == Map::<Seq<char>, SandboxView>::empty(),
    {
        let entries: Vec<SandboxMetadata> = Vec::new();
        assert(records(entries@) =~= Seq::empty());
        SandboxRegistry { entries }
    }

    /// How many there are.
    pub fn len(&self) -> (r: usize)
        ensures
            self@.dom().finite(),
            r == self@.dom().len(),
    {
        proof {
            use_type_invariant(self);
            lemma_by_id(records(self.entries@));
        }
        self.entries.len()
    }

    fn find(&self, experiment_id: &str) -> (r: Option<usize>)
        ensures
            match r {
                Some(k) => k < self.entries@.len() && self.entries@[k as int]@.experiment_id
                    == experiment_id@,
                None => forall|i: int|
                    0 <= i < self.entries@.len() ==> (#[trigger] records(
                        self.entries@,
                    )[i]).experiment_id != experiment_id@,
            },
    {
        let ghost s = records(self.entries@);
        let mut i: usize = 0;
        while i < self.entries.len()
            invariant
                i <= self.entries@.len(),
                s == records(self.entries@),
                forall|k: int| 0 <= k < i ==> (#[trigger] s[k]).experiment_id != experiment_id@,
            decreases self.entries@.len() - i,
        {
            assert(s[i as int] == self.entries@[i as int]@);
            if same(self.entries[i].experiment_id.as_str(), experiment_id) {
                return Some(i);
            }
            i = i + 1;
        }
        None
    }

    /// The record of one.
    pub fn metadata(&self, experiment_id: &str) -> (r: Option<&SandboxMetadata>)
        ensures
            match r {
                Some(m) => self@.dom().contains(experiment_id@) && m@ == self@[experiment_id@],
                None => !self@.dom().contains(experiment_id@),
            },
    {
        proof {
            use_type_invariant(self);
            lemma_by_id(records(self.entries@));
        }
        match self.find(experiment_id) {
            Some(k) => {
                assert(records(self.entries@)[k as int] == self.entries@[k as int]@);
                Some(&self.entries[k])
            },
            None => None,
        }
    }

    /// The experiments that there are, in no particular order.
    pub fn keys(&self) -> (r: Vec<String>)
        ensures
            r@.len() == self@.dom().len(),
            forall|id: Seq<char>| self@.dom().contains(id) == texts(r@).contains(id),
    {
        proof {
            use_type_invariant(self);
            lemma_by_id(records(self.entries@));
        }
        let ghost s = records(self.entries@);
        let mut out: Vec<String> = Vec::new();
        let mut i: usize = 0;
        while i < self.entries.len()
            invariant
                i <= self.entries@.len(),
                s == records(self.entries@),
                out@.len() == i,
                forall|k: int| 0 <= k < i ==> (#[trigger] out@[k])@ == s[k].experiment_id,
            decreases self.entries@.len() - i,
        {
            assert(s[i as int] == self.entries@[i as int]@);
            out.push(owned(self.entries[i].experiment_id.as_str()));
            i = i + 1;
        }
        proof {
            assert(s.len() == self.entries@.len());
            assert forall|id: Seq<char>| self@.dom().contains(id) == texts(out@).contains(id) by {
                if self@.dom().contains(id) {
                    let i = choose|i: int| 0 <= i < s.len() && (#[trigger] s[i]).experiment_id == id;
                    assert(texts(out@)[i] == out@[i]@);
                }
                if texts(out@).contains(id) {
                    let i = choose|i: int| 0 <= i < texts(out@).len() && texts(out@)[i] == id;
                    assert(out@[i]@ == s[i].experiment_id);
                    assert(s[i].experiment_id == id);
                }
            }
        }
        out
    }

    /// The records of all, in no particular order.
    pub fn metadata_list(&self) -> (r: Vec<SandboxMetadata>)
        ensures
            r@.len() == self@.dom().len(),
            ids_differ(records(r@)),
            forall|i: int|
                0 <= i < r@.len() ==> self@.dom().contains((#[trigger] r@[i])@.experiment_id)
                    && self@[r@[i]@.experiment_id] == r@[i]@,
    {
        proof {
            use_type_invariant(self);
            lemma_by_id(records(self.entries@));
        }
        let ghost s = records(self.entries@);
        let mut out: Vec<SandboxMetadata> = Vec::new();
        let mut i: usize = 0;
        while i < self.entries.len()
            invariant
                i <= self.entries@.len(),
                s == records(self.entries@),
                out@.len() == i,
                forall|k: int| 0 <= k < i ==> (#[trigger] out@[k])@ == s[k],
            decreases self.entries@.len() - i,
        {
            assert(s[i as int] == self.entries@[i as int]@);
            out.push(self.entries[i].copy());
            i = i + 1;
        }
        assert(records(out@) =~= s);
        out
    }

    /// Takes in a sandbox, in place of one of the same experiment.
    pub fn insert(&mut self, metadata: SandboxMetadata)
        ensures
            final(self)@ == old(self)@.insert(metadata@.experiment_id, metadata@),
    {
        proof {
            use_type_invariant(&*self);
        }
        let ghost s = records(self.entries@);
        let found = self.find(metadata.experiment_id.as_str());
        let mut entries: Vec<SandboxMetadata> = Vec::new();
        std::mem::swap(&mut entries, &mut self.entries);
        match found {
            Some(k) => {
                proof {
                    assert(s[k as int] == entries@[k as int]@);
                    lemma_by_id_insert(s, k as int, metadata@);
                }
                let ghost x = metadata@;
                entries.set(k, metadata);
                assert(records(entries@) =~= s.update(k as int, x));
            },
            None => {
                proof {
                    lemma_by_id_insert(s, s.len() as int, metadata@);
                }
                let ghost x = metadata@;
                entries.push(metadata);
                assert(records(entries@) =~= s.push(x));
            },
        }
        self.entries = entries;
    }

    /// Takes out a sandbox.
    pub fn remove(&mut self, experiment_id: &str) -> (r: Option<SandboxMetadata>)
        ensures
            final(self)@ == old(self)@.remove(experiment_id@),
            match r {
                Some(m) => old(self)@.dom().contains(experiment_id@) && m@
                    == old(self)@[experiment_id@],
                None => !old(self)@.dom().contains(experiment_id@),
            },
    {
        proof {
            use_type_invariant(&*self);
            lemma_by_id(records(self.entries@));
        }
        let ghost s = records(self.entries@);
        match self.find(experiment_id) {
            Some(k) => {
                let mut entries: Vec<SandboxMetadata> = Vec::new();
                std::mem::swap(&mut entries, &mut self.entries);
                proof {
                    assert(s[k as int] == entries@[k as int]@);
                    lemma_by_id_remove(s, k as int);
                }
                let m = entries.remove(k);
                assert(records(entries@) =~= s.remove(k as int));
                self.entries = entries;
                Some(m)
            },
            None => {
                assert(by_id(s).remove(experiment_id@) =~= by_id(s));
                None
            },
        }
    }

    /// Takes out all sandboxes.
    pub fn drain(&mut self) -> (r: Vec<SandboxMetadata>)
        ensures
            final(self)@ == Map::<Seq<char>, SandboxView>::empty(),
            ids_differ(records(r@)),
            by_id(records(r@)) == old(self)@,
    {
        proof {
            use_type_invariant(&*self);
        }
        let mut entries: Vec<SandboxMetadata> = Vec::new();
        assert(records(entries@) =~= Seq::empty());
        std::mem::swap(&mut entries, &mut self.entries);
        entries
    }
}

// ---------------------------------------------------------------------------
// Processes
// ---------------------------------------------------------------------------

/// One Frama-C process as a caller knows it.
pub struct ProcessMetadata {
    pub status: &'static str,
    pub pid: u32,
    pub command_line: Vec<String>,
    pub socket_path: String,
    pub stdout_log_path: Option<String>,
    pub stderr_log_path: Option<String>,
    pub startup_stderr_tail: Option<String>,
    pub exit_status: Option<String>,
}

/// The last errors of a process: those in its log where there are any, else those at its start.
pub open spec fn last_errors(log_tail: Option<Seq<char>>, at_start: Option<Seq<char>>) -> Seq<char> {
    match (log_tail, at_start) {
        (Some(t), _) if t.len() > 0 => t,
        (_, Some(s)) => s,
        _ => Seq::empty(),
    }
}

/// The last errors of a process, by the end of its log where it has one.
pub fn stderr_tail(process: &ProcessMetadata, log_tail: &Option<String>) -> (r: String)
    ensures
        r@ == last_errors(opt_string(*log_tail), opt_string(process.startup_stderr_tail)),
{
    match log_tail {
        Some(t) => if !t.as_str().is_empty() {
            return owned(t.as_str());
        },
        None => {},
    }
    match &process.startup_stderr_tail {
        Some(s) => owned(s.as_str()),
        None => {
            let nothing = String::new();
            assert(nothing@ =~= Seq::empty());
            nothing
        },
    }
}

/// How a process is reported.
pub open spec fn process_report(p: ProcessMetadata, errors: Seq<char>, messages: JsonView) -> JsonView {
    JsonView::object().with("status"@, JsonView::Str(p.status@)).with(
        "running"@,
        JsonView::Bool(p.status@ == "running"@),
    ).with("pid"@, JsonView::num(p.pid as int)).with(
        "command_line"@,
        JsonView::strings(texts(p.command_line@)),
    ).with("socket_path"@, JsonView::Str(p.socket_path@)).with(
        "stdout_log_path"@,
        JsonView::opt_text(opt_string(p.stdout_log_path)),
    ).with("stderr_log_path"@, JsonView::opt_text(opt_string(p.stderr_log_path))).with(
        "startup_stderr_tail"@,
        JsonView::Str(errors),
    ).with("plugin_load_messages"@, messages).with(
        "exit_status"@,
        JsonView::opt_text(opt_string(p.exit_status)),
    )
}

fn opt_field(o: &Option<String>) -> (r: Json)
    ensures
        r@ == JsonView::opt_text(opt_string(*o)),
{
    match o {
        Some(s) => Json::str(s.as_str()),
        None => Json::Null,
    }
}

/// How a process is reported, by its last errors and what they say of plug-ins.
pub fn process_metadata_payload(
    process: &ProcessMetadata,
    stderr_tail: &str,
    plugin_load_messages: Json,
) -> (r: Json)
    ensures
        r@ == process_report(*process, stderr_tail@, plugin_load_messages@),
{
    Json::object().with("status", Json::str(process.status)).with(
        "running",
        Json::Bool(same(process.status, "running")),
    ).with("pid", Json::num(process.pid as u64)).with(
        "command_line",
        Json::strings(&process.command_line),
    ).with("socket_path", Json::str(process.socket_path.as_str())).with(
        "stdout_log_path",
        opt_field(&process.stdout_log_path),
    ).with("stderr_log_path", opt_field(&process.stderr_log_path)).with(
        "startup_stderr_tail",
        Json::str(stderr_tail),
    ).with("plugin_load_messages", plugin_load_messages).with(
        "exit_status",
        opt_field(&process.exit_status),
    )
}

/// Whether the process that holds the project runs, by how it ended.
pub fn main_status(exit_status: &Option<String>) -> (r: &'static str)
    ensures
        r@ == (if exit_status is Some {
            "exited"@
        } else {
            "running"@
        }),
{
    if exit_status.is_some() {
        "exited"
    } else {
        "running"
    }
}

/// How the processes are reported: the one that holds the project, where it was started, and how
/// many sandboxes there are.
pub fn process_diagnostics_payload(main: Option<Json>, frama_c_path: &str, sandbox_count: usize) -> (r:
    Json)
    ensures
        r@ == JsonView::object().with(
            "main"@,
            match opt_value(main) {
                Some(m) => m,
                None => JsonView::object().with("status"@, JsonView::Str("not_started"@)).with(
                    "frama_c_path"@,
                    JsonView::Str(frama_c_path@),
                ),
            },
        ).with("sandbox_count"@, JsonView::num(sandbox_count as int)),
{
    let shown = match main {
        Some(m) => m,
        None => Json::object().with("status", Json::str("not_started")).with(
            "frama_c_path",
            Json::str(frama_c_path),
        ),
    };
    Json::object().with("main", shown).with("sandbox_count", Json::num(sandbox_count as u64))
}

// ---------------------------------------------------------------------------
// The list
// ---------------------------------------------------------------------------

/// How a sandbox is doing.
pub open spec fn runtime_status(active: bool, deleted: bool) -> Seq<char> {
    if active {
        "live"@
    } else if deleted {
        "deleted"@
    } else {
        "stale"@
    }
}

/// The process of a sandbox.
pub open spec fn sandbox_process(m: SandboxView, active: bool) -> Seq<char> {
    if active {
        "running"@
    } else if m.deleted {
        "deleted"@
    } else {
        "unknown"@
    }
}

/// The number of statements, if it is known.
pub open spec fn stmt_count(c: Option<&FunctionVerificationState>) -> Option<int> {
    match c {
        Some(c) => match c.ast_stmt_count {
            Some(n) => Some(n as int),
            None => None,
        },
        None => None,
    }
}

/// How a sandbox is listed. That its process runs and that this server owns it are two things: a
/// server that was killed leaves a process that still answers.
pub open spec fn list_entry(
    m: SandboxView,
    conclusion: Option<&FunctionVerificationState>,
    active: bool,
    process_alive: bool,
    process: JsonView,
) -> JsonView {
    let clean = JsonView::Bool(
        match conclusion {
            Some(c) => c.sandbox_clean,
            None => true,
        },
    );
    let recoverable = JsonView::Bool(!active && !m.deleted);
    JsonView::object().with("experiment_id"@, JsonView::Str(m.experiment_id)).with(
        "function"@,
        JsonView::Str(m.original_function),
    ).with("original_function"@, JsonView::Str(m.original_function)).with(
        "sandbox_name"@,
        JsonView::Str(m.experiment_id + ":"@ + m.original_function),
    ).with("pid"@, JsonView::num(m.sandbox_pid as int)).with(
        "sandbox_pid"@,
        JsonView::num(m.sandbox_pid as int),
    ).with("source_path"@, JsonView::Str(joined(m.sandbox_dir, "sandbox.c"@))).with(
        "sandbox_dir"@,
        JsonView::Str(m.sandbox_dir),
    ).with("socket_path"@, JsonView::Str(m.sandbox_socket)).with(
        "sandbox_socket"@,
        JsonView::Str(m.sandbox_socket),
    ).with("declaration_marker"@, JsonView::Str(m.declaration_marker)).with(
        "active"@,
        JsonView::Bool(active),
    ).with("process_alive"@, JsonView::Bool(process_alive)).with("stale"@, recoverable).with(
        "recoverable"@,
        recoverable,
    ).with("runtime_status"@, JsonView::Str(runtime_status(active, m.deleted))).with(
        "clean"@,
        clean,
    ).with("sandbox_clean"@, clean).with("deleted"@, JsonView::Bool(m.deleted)).with(
        "sandbox_deleted"@,
        JsonView::Bool(m.deleted),
    ).with(
        "annotation_count"@,
        JsonView::num(
            match conclusion {
                Some(c) => c.annotation_count as int,
                None => 0,
            },
        ),
    ).with("ast_stmt_count"@, JsonView::opt_int(stmt_count(conclusion))).with(
        "created_at"@,
        JsonView::Str(m.created_at),
    ).with("last_activity"@, JsonView::Str(m.last_activity)).with("process"@, process).with(
        "last_wp_summary"@,
        JsonView::or_null(
            match conclusion {
                Some(c) => opt_value(c.wp_summary),
                None => None,
            },
        ),
    )
}

/// The process of a sandbox as a caller knows it.
pub fn sandbox_process_metadata(sandbox: &SandboxMetadata, active: bool) -> (r: ProcessMetadata)
    ensures
        r.status@ == sandbox_process(sandbox@, active),
        r.pid == sandbox@.sandbox_pid,
        texts(r.command_line@) == sandbox@.command_line,
        r.socket_path@ == sandbox@.sandbox_socket,
        opt_string(r.stdout_log_path) == sandbox@.stdout_log_path,
        opt_string(r.stderr_log_path) == sandbox@.stderr_log_path,
        opt_string(r.startup_stderr_tail) == sandbox@.startup_stderr_tail,
        r.exit_status is None,
{
    let status = if active {
        "running"
    } else if sandbox.deleted {
        "deleted"
    } else {
        "unknown"
    };
    ProcessMetadata {
        status,
        pid: sandbox.sandbox_pid,
        command_line: own_all(&sandbox.command_line),
        socket_path: owned(sandbox.sandbox_socket.as_str()),
        stdout_log_path: copy_opt(&sandbox.stdout_log_path),
        stderr_log_path: copy_opt(&sandbox.stderr_log_path),
        startup_stderr_tail: copy_opt(&sandbox.startup_stderr_tail),
        exit_status: None,
    }
}

/// How a sandbox is listed.
pub fn sandbox_list_entry(
    sandbox: &SandboxMetadata,
    conclusion: Option<&FunctionVerificationState>,
    active: bool,
    process_alive: bool,
    process: Json,
) -> (r: Json)
    ensures
        r@ == list_entry(sandbox@, conclusion, active, process_alive, process@),
{
    let id = sandbox.experiment_id.as_str();
    let function = sandbox.original_function.as_str();
    let deleted = sandbox.deleted;
    let clean = match conclusion {
        Some(c) => c.sandbox_clean,
        None => true,
    };
    let annotations: u64 = match conclusion {
        Some(c) => c.annotation_count,
        None => 0,
    };
    let statements: Option<u64> = match conclusion {
        Some(c) => match c.ast_stmt_count {
            Some(n) => Some(n as u64),
            None => None,
        },
        None => None,
    };
    let summary = match conclusion {
        Some(c) => match &c.wp_summary {
            Some(v) => v.copy(),
            None => Json::Null,
        },
        None => Json::Null,
    };
    let status = if active {
        "live"
    } else if deleted {
        "deleted"
    } else {
        "stale"
    };
    let name = cat3(id, ":", function);
    let source = join_path(sandbox.sandbox_dir.as_str(), "sandbox.c");
    Json::object().with("experiment_id", Json::str(id)).with("function", Json::str(function)).with(
        "original_function",
        Json::str(function),
    ).with("sandbox_name", Json::Str(name)).with("pid", Json::num(sandbox.sandbox_pid as u64)).with(
        "sandbox_pid",
        Json::num(sandbox.sandbox_pid as u64),
    ).with("source_path", Json::Str(source)).with(
        "sandbox_dir",
        Json::str(sandbox.sandbox_dir.as_str()),
    ).with("socket_path", Json::str(sandbox.sandbox_socket.as_str())).with(
        "sandbox_socket",
        Json::str(sandbox.sandbox_socket.as_str()),
    ).with("declaration_marker", Json::str(sandbox.declaration_marker.as_str())).with(
        "active",
        Json::Bool(active),
    ).with("process_alive", Json::Bool(process_alive)).with(
        "stale",
        Json::Bool(!active && !deleted),
    ).with("recoverable", Json::Bool(!active && !deleted)).with(
        "runtime_status",
        Json::str(status),
    ).with("clean", Json::Bool(clean)).with("sandbox_clean", Json::Bool(clean)).with(
        "deleted",
        Json::Bool(deleted),
    ).with("sandbox_deleted", Json::Bool(deleted)).with(
        "annotation_count",
        Json::num(annotations),
    ).with("ast_stmt_count", Json::opt_num(statements)).with(
        "created_at",
        Json::str(sandbox.created_at.as_str()),
    ).with("last_activity", Json::str(sandbox.last_activity.as_str())).with(
        "process",
        process,
    ).with("last_wp_summary", summary)
}

/// Records, and whether this server runs their sandboxes, as views.
pub open spec fn known_views(v: Seq<(SandboxMetadata, bool)>) -> Seq<(SandboxView, bool)> {
    v.map_values(|k: (SandboxMetadata, bool)| (k.0@, k.1))
}

/// Whether some record is of an experiment.
pub open spec fn has_id(s: Seq<SandboxView>, experiment_id: Seq<char>) -> bool {
    exists|i: int| 0 <= i < s.len() && (#[trigger] s[i]).experiment_id == experiment_id
}

/// The records of sandboxes that this server does not run.
pub open spec fn not_live(disk: Seq<SandboxView>, live: Seq<SandboxView>) -> Seq<(SandboxView, bool)>
    decreases disk.len(),
{
    if disk.len() == 0 {
        Seq::empty()
    } else if has_id(live, disk.last().experiment_id) {
        not_live(disk.drop_last(), live)
    } else {
        not_live(disk.drop_last(), live).push((disk.last(), false))
    }
}

/// The sandboxes that are known: those that this server runs, and those that an earlier one left.
pub open spec fn known(live: Seq<SandboxView>, disk: Seq<SandboxView>) -> Seq<(SandboxView, bool)> {
    live.map_values(|m: SandboxView| (m, true)) + not_live(disk, live)
}

fn is_live(live: &Vec<SandboxMetadata>, experiment_id: &str) -> (r: bool)
    ensures
        r == has_id(records(live@), experiment_id@),
{
    let ghost s = records(live@);
    let mut i: usize = 0;
    while i < live.len()
        invariant
            i <= live@.len(),
            s == records(live@),
            forall|k: int| 0 <= k < i ==> (#[trigger] s[k]).experiment_id != experiment_id@,
        decreases live@.len() - i,
    {
        assert(s[i as int] == live@[i as int]@);
        if same(live[i].experiment_id.as_str(), experiment_id) {
            assert(has_id(s, experiment_id@));
            return true;
        }
        i = i + 1;
    }
    assert(s.len() == live@.len());
    false
}

/// The sandboxes that are known. Of one that is both running and recorded, what this server knows
/// counts.
pub fn known_sandboxes(live: &Vec<SandboxMetadata>, disk: &Vec<SandboxMetadata>) -> (r: Vec<
    (SandboxMetadata, bool),
>)
    ensures
        known_views(r@) == known(records(live@), records(disk@)),
{
    let ghost l = records(live@);
    let ghost d = records(disk@);
    let mut out: Vec<(SandboxMetadata, bool)> = Vec::new();
    let mut i: usize = 0;
    while i < live.len()
        invariant
            i <= live@.len(),
            l == records(live@),
            out@.len() == i,
            forall|k: int| 0 <= k < i ==> (#[trigger] out@[k]).0@ == l[k] && out@[k].1,
        decreases live@.len() - i,
    {
        assert(l[i as int] == live@[i as int]@);
        out.push((live[i].copy(), true));
        i = i + 1;
    }
    let ghost first = l.map_values(|m: SandboxView| (m, true));
    assert(known_views(out@) =~= first + Seq::empty());
    assert(d.subrange(0, 0) =~= Seq::empty());
    let mut j: usize = 0;
    while j < disk.len()
        invariant
            j <= disk@.len(),
            l == records(live@),
            d == records(disk@),
            known_views(out@) == first + not_live(d.subrange(0, j as int), l),
        decreases disk@.len() - j,
    {
        proof {
            lemma_take_next(d, j as int);
            assert(d[j as int] == disk@[j as int]@);
        }
        if !is_live(live, disk[j].experiment_id.as_str()) {
            let ghost before = out@;
            let c = disk[j].copy();
            let ghost x = (c@, false);
            out.push((c, false));
            assert(known_views(out@) =~= known_views(before).push(x));
            assert(known_views(out@) =~= first + not_live(d.subrange(0, j as int + 1), l));
        }
        j = j + 1;
    }
    assert(d.subrange(0, j as int) =~= d);
    out
}

proof fn lemma_not_live(disk: Seq<SandboxView>, live: Seq<SandboxView>)
    requires
        ids_differ(disk),
    ensures
        forall|i: int|
            0 <= i < not_live(disk, live).len() ==> !has_id(
                live,
                (#[trigger] not_live(disk, live)[i]).0.experiment_id,
            ) && has_id(disk, not_live(disk, live)[i].0.experiment_id) && !not_live(disk, live)[i].1,
        forall|i: int, j: int|
            0 <= i < j < not_live(disk, live).len() ==> (#[trigger] not_live(
                disk,
                live,
            )[i]).0.experiment_id != (#[trigger] not_live(disk, live)[j]).0.experiment_id,
    decreases disk.len(),
{
    if disk.len() > 0 {
        let t = disk.drop_last();
        assert(ids_differ(t)) by {
            assert forall|i: int, j: int| 0 <= i < j < t.len() implies (#[trigger] t[i]).experiment_id
                != (#[trigger] t[j]).experiment_id by {
                assert(t[i] == disk[i] && t[j] == disk[j]);
            }
        }
        lemma_not_live(t, live);
        let r = not_live(disk, live);
        let q = not_live(t, live);
        let x = disk.last();
        assert(disk[disk.len() - 1] == x);
        assert forall|id: Seq<char>| has_id(t, id) implies has_id(disk, id) && id
            != x.experiment_id by {
            let k = choose|k: int| 0 <= k < t.len() && (#[trigger] t[k]).experiment_id == id;
            assert(disk[k].experiment_id == id);
            assert(disk[k].experiment_id != disk[disk.len() - 1].experiment_id);
        }
        assert forall|i: int| 0 <= i < r.len() implies !has_id(
            live,
            (#[trigger] r[i]).0.experiment_id,
        ) && has_id(disk, r[i].0.experiment_id) && !r[i].1 by {
            if i < q.len() {
                assert(r[i] == q[i]);
            }
        }
        assert forall|i: int, j: int| 0 <= i < j < r.len() implies (#[trigger] r[i]).0.experiment_id
            != (#[trigger] r[j]).0.experiment_id by {
            assert(r[i] == q[i]);
            if j < q.len() {
                assert(r[j] == q[j]);
            } else {
                assert(has_id(t, q[i].0.experiment_id));
            }
        }
    }
}

/// Every experiment is known once, and as running where it runs.
pub proof fn law_every_experiment_is_known_once(
    live: Seq<SandboxView>,
    disk: Seq<SandboxView>,
    i: int,
    j: int,
)
    requires
        ids_differ(live),
        ids_differ(disk),
        0 <= i < j < known(live, disk).len(),
    ensures
        known(live, disk)[i].0.experiment_id != known(live, disk)[j].0.experiment_id,
        known(live, disk)[i].1 == has_id(live, known(live, disk)[i].0.experiment_id),
        known(live, disk)[j].1 == has_id(live, known(live, disk)[j].0.experiment_id),
{
    lemma_not_live(disk, live);
    let k = known(live, disk);
    let q = not_live(disk, live);
    let n = live.len() as int;
    if i < n {
        assert(k[i] == (live[i], true));
        assert(has_id(live, live[i].experiment_id));
    } else {
        assert(k[i] == q[i - n]);
    }
    if j < n {
        assert(k[j] == (live[j], true));
        assert(has_id(live, live[j].experiment_id));
    } else {
        assert(k[j] == q[j - n]);
    }
}

/// The experiment that an entry of the list is of.
pub open spec fn entry_id(e: JsonView) -> Seq<char> {
    text_or(e.text("experiment_id"@), ""@)
}

/// The order of the list.
pub open spec fn entry_order() -> spec_fn(JsonView, JsonView) -> bool {
    |a: JsonView, b: JsonView| text_lt(entry_id(a), entry_id(b))
}

/// The list of sandboxes, in order.
pub open spec fn sandbox_list(entries: Seq<JsonView>, max_sandboxes: int) -> JsonView {
    JsonView::object().with("count"@, JsonView::num(entries.len() as int)).with(
        "max_sandboxes"@,
        JsonView::num(max_sandboxes),
    ).with("sandboxes"@, JsonView::Array(sort_by(entries, entry_order())))
}

/// The list of sandboxes, in the order of their experiments.
pub fn sandbox_list_payload(entries: Vec<Json>, max_sandboxes: usize) -> (r: Json)
    ensures
        r@ == sandbox_list(models(entries@), max_sandboxes as int),
{
    let ghost all = models(entries@);
    let total: usize = entries.len();
    let mut rest = entries;
    let mut out: Vec<Json> = Vec::new();
    let ghost mut n: int = 0;
    assert(all.subrange(0, 0) =~= Seq::empty());
    assert(models(out@) =~= Seq::empty());
    assert(models(rest@) =~= all.subrange(0, all.len() as int));
    while rest.len() > 0
        invariant
            0 <= n <= all.len(),
            models(rest@) == all.subrange(n, all.len() as int),
            models(out@) == sort_by(all.subrange(0, n), entry_order()),
        decreases rest@.len(),
    {
        let ghost before = rest@;
        assert(models(before).len() == before.len());
        let e = rest.remove(0);
        proof {
            assert(models(before)[0] == e@);
            assert(all[n] == all.subrange(n, all.len() as int)[0]);
            lemma_take_next(all, n);
            assert forall|i: int| 0 <= i < rest@.len() implies #[trigger] models(rest@)[i]
                == all.subrange(n + 1, all.len() as int)[i] by {
                assert(models(before)[i + 1] == all.subrange(n, all.len() as int)[i + 1]);
            }
            assert(models(rest@) =~= all.subrange(n + 1, all.len() as int));
        }
        let ghost s = models(out@);
        let id = owned(str_or(e.text("experiment_id"), ""));
        let mut k: usize = 0;
        while k < out.len() && !lt(id.as_str(), str_or(out[k].text("experiment_id"), ""))
            invariant
                k <= out@.len(),
                s == models(out@),
                id@ == entry_id(e@),
                forall|i: int| 0 <= i < k ==> !entry_order()(e@, #[trigger] s[i]),
            decreases out@.len() - k,
        {
            assert(s[k as int] == out@[k as int]@);
            k = k + 1;
        }
        proof {
            if k < s.len() {
                assert(s[k as int] == out@[k as int]@);
            }
            lemma_place_is(s, e@, entry_order(), k as int);
        }
        let ghost x = e@;
        out.insert(k, e);
        assert(models(out@) =~= s.insert(k as int, x));
        proof {
            n = n + 1;
        }
    }
    assert(all.subrange(0, n) =~= all);
    assert(all.len() == total);
    Json::object().with("count", Json::num(total as u64)).with(
        "max_sandboxes",
        Json::num(max_sandboxes as u64),
    ).with("sandboxes", Json::array(out))
}

// ---------------------------------------------------------------------------
// Making one
// ---------------------------------------------------------------------------

/// What is said where there are as many sandboxes as there may be.
pub open spec fn limit_reached(max_sandboxes: int) -> ToolErrorView {
    ToolErrorView::invalid(
        "sandbox limit "@ + decimal(max_sandboxes as nat)
            + " reached; delete a sandbox or raise --max-sandboxes"@,
    )
}

/// Accepts one more sandbox where there are fewer than there may be.
pub fn require_sandbox_room(count: usize, max_sandboxes: usize) -> (r: Result<(), ToolError>)
    ensures
        match r {
            Ok(()) => count < max_sandboxes,
            Err(e) => count >= max_sandboxes && e@ == limit_reached(max_sandboxes as int),
        },
{
    if count >= max_sandboxes {
        let n = decimal_text(max_sandboxes as u64);
        return Err(
            ToolError::invalid(
                cat3(
                    "sandbox limit ",
                    n.as_str(),
                    " reached; delete a sandbox or raise --max-sandboxes",
                ),
            ),
        );
    }
    Ok(())
}

/// A function and what it depends on, taken out of the project.
pub struct Extraction {
    pub source: String,
    pub ast_stmt_count: Option<u32>,
    pub extraction_report: Json,
    pub logic_dependencies: Json,
}

/// Why nothing was taken out, if nothing was.
pub open spec fn extraction_error(result: JsonView) -> Option<ToolErrorView> {
    if result.flag("success"@) != Some(true) {
        Some(
            ToolErrorView::internal(
                "extract failed: "@ + text_or(result.text("error"@), "unknown error"@),
            ),
        )
    } else if result.text("source"@) is None {
        Some(ToolErrorView::internal("extract returned no source"@))
    } else {
        None
    }
}

/// What stands under a key, or an empty object.
pub open spec fn object_under(result: JsonView, key: Seq<char>) -> JsonView {
    match result.get(key) {
        Some(v) => v,
        None => JsonView::object(),
    }
}

/// Whether what was taken out is what an answer holds.
pub open spec fn is_extraction(e: Extraction, result: JsonView) -> bool {
    &&& Some(e.source@) == result.text("source"@)
    &&& e.ast_stmt_count == (match result.list("sids"@) {
        Some(l) => Some(l.len() as u32),
        None => None,
    })
    &&& e.extraction_report@ == object_under(result, "extraction_report"@)
    &&& e.logic_dependencies@ == object_under(result, "logic_dependencies"@)
}

fn copy_under(result: &Json, key: &str) -> (r: Json)
    ensures
        r@ == object_under(result@, key@),
{
    match result.get(key) {
        Some(v) => v.copy(),
        None => Json::object(),
    }
}

/// What was taken out of the project, by the answer of the plug-in.
pub fn extraction_of(result: &Json) -> (r: Result<Extraction, ToolError>)
    ensures
        match r {
            Ok(e) => extraction_error(result@) is None && is_extraction(e, result@),
            Err(e) => extraction_error(result@) == Some(e@),
        },
{
    let success = match result.flag("success") {
        Some(b) => b,
        None => false,
    };
    if !success {
        let error = str_or(result.text("error"), "unknown error");
        return Err(ToolError::internal(crate::text::cat2("extract failed: ", error)));
    }
    let source = match result.text("source") {
        Some(s) => owned(s),
        None => {
            return Err(ToolError::internal(owned("extract returned no source")));
        },
    };
    let ast_stmt_count: Option<u32> = match result.list("sids") {
        Some(l) => {
            assert(models(l@).len() == l@.len());
            Some(l.len() as u32)
        },
        None => None,
    };
    Ok(
        Extraction {
            source,
            ast_stmt_count,
            extraction_report: copy_under(result, "extraction_report"),
            logic_dependencies: copy_under(result, "logic_dependencies"),
        },
    )
}

/// The experiment that a caller asks for, where it is more than blanks.
pub open spec fn asked_id(asked: Option<Seq<char>>) -> Option<Seq<char>> {
    match asked {
        Some(s) => if trim_spec(s).len() > 0 {
            Some(trim_spec(s))
        } else {
            None
        },
        None => None,
    }
}

/// Whether an experiment is taken: by a sandbox that this server runs, or by one that was left
/// behind, is not noted as deleted, and whose process is alive.
pub open spec fn id_taken(known: Seq<(SandboxView, bool)>, alive: Seq<bool>, id: Seq<char>) -> bool {
    exists|i: int|
        0 <= i < known.len() && (#[trigger] known[i]).0.experiment_id == id && (known[i].1 || (
        !known[i].0.deleted && alive[i]))
}

/// What is said of an experiment that is taken.
pub open spec fn id_in_use(id: Seq<char>) -> ToolErrorView {
    ToolErrorView::invalid(
        "experiment_id '"@ + id
            + "' already in use; delete it with delete_sandbox or pick a different ID"@,
    )
}

fn taken(known: &Vec<(SandboxMetadata, bool)>, alive: &Vec<bool>, id: &str) -> (r: bool)
    requires
        known@.len() == alive@.len(),
    ensures
        r == id_taken(known_views(known@), alive@, id@),
{
    let ghost k = known_views(known@);
    let mut i: usize = 0;
    while i < known.len()
        invariant
            i <= known@.len(),
            known@.len() == alive@.len(),
            k == known_views(known@),
            forall|j: int|
                0 <= j < i ==> !((#[trigger] k[j]).0.experiment_id == id@ && (k[j].1 || (
                !k[j].0.deleted && alive@[j]))),
        decreases known@.len() - i,
    {
        assert(k[i as int] == (known@[i as int].0@, known@[i as int].1));
        let sandbox = &known[i].0;
        if same(sandbox.experiment_id.as_str(), id) && (known[i].1 || (!sandbox.deleted
            && alive[i])) {
            assert(id_taken(k, alive@, id@));
            return true;
        }
        i = i + 1;
    }
    assert(k.len() == known@.len());
    false
}

/// The experiment of a new sandbox: the one that is asked for, where it can be a directory and is
/// not taken, else one that is drawn at random. `alive` says of every known sandbox whether its
/// process is.
pub fn choose_experiment_id(
    asked: Option<&str>,
    known: &Vec<(SandboxMetadata, bool)>,
    alive: &Vec<bool>,
) -> (r: Result<String, ToolError>)
    requires
        known@.len() == alive@.len(),
    ensures
        match (asked_id(opt_text(asked)), r) {
            (None, Ok(id)) => id@.len() == 12 && all_hex(id@),
            (None, Err(_)) => false,
            (Some(id), Ok(got)) => got@ == id && safe_segment(id) && !id_taken(
                known_views(known@),
                alive@,
                id,
            ),
            (Some(id), Err(e)) => if !safe_segment(id) {
                e@ == unsafe_segment(id, "experiment_id"@)
            } else {
                id_taken(known_views(known@), alive@, id) && e@ == id_in_use(id)
            },
        },
{
    let id = match asked {
        Some(s) => trim(s),
        None => {
            return Ok(random_hex(12));
        },
    };
    if id.as_str().is_empty() {
        return Ok(random_hex(12));
    }
    require_safe_path_segment(id.as_str(), "experiment_id")?;
    if taken(known, alive, id.as_str()) {
        return Err(
            ToolError::invalid(
                cat3(
                    "experiment_id '",
                    id.as_str(),
                    "' already in use; delete it with delete_sandbox or pick a different ID",
                ),
            ),
        );
    }
    Ok(id)
}

/// A new sandbox, as it was made.
pub struct NewSandbox {
    pub experiment_id: String,
    pub function: String,
    pub sandbox_dir: String,
    pub sandbox_pid: u32,
    pub now: String,
    pub command_line: Vec<String>,
    pub startup_tail: String,
}

/// What is recorded of a new sandbox.
pub open spec fn new_record(n: NewSandbox, functions: Seq<JsonView>) -> SandboxView {
    SandboxView {
        experiment_id: n.experiment_id@,
        original_function: n.function@,
        sandbox_dir: n.sandbox_dir@,
        sandbox_socket: joined(n.sandbox_dir@, "frama-c.sock"@),
        sandbox_pid: n.sandbox_pid,
        declaration_marker: match decl_from(functions, n.function@, 0) {
            Some(d) => d,
            None => ""@,
        },
        created_at: n.now@,
        last_activity: n.now@,
        deleted: false,
        command_line: texts(n.command_line@),
        startup_stderr_tail: Some(n.startup_tail@),
        stdout_log_path: Some(joined(n.sandbox_dir@, "sandbox.stdout.log"@)),
        stderr_log_path: Some(joined(n.sandbox_dir@, "sandbox.stderr.log"@)),
    }
}

/// What is recorded of a new sandbox, by the functions that its process knows.
pub fn new_sandbox_metadata(n: &NewSandbox, functions: &Vec<Json>) -> (r: SandboxMetadata)
    ensures
        r@ == new_record(*n, models(functions@)),
{
    let dir = n.sandbox_dir.as_str();
    let declaration_marker = match decl_marker(functions, n.function.as_str()) {
        Some(d) => d,
        None => owned(""),
    };
    SandboxMetadata {
        experiment_id: owned(n.experiment_id.as_str()),
        original_function: owned(n.function.as_str()),
        sandbox_dir: owned(dir),
        sandbox_socket: join_path(dir, "frama-c.sock"),
        sandbox_pid: n.sandbox_pid,
        declaration_marker,
        created_at: owned(n.now.as_str()),
        last_activity: owned(n.now.as_str()),
        deleted: false,
        command_line: own_all(&n.command_line),
        startup_stderr_tail: Some(owned(n.startup_tail.as_str())),
        stdout_log_path: Some(join_path(dir, "sandbox.stdout.log")),
        stderr_log_path: Some(join_path(dir, "sandbox.stderr.log")),
    }
}

/// The record of a new sandbox, in the directory that it has by its experiment, is believed when it
/// is read again.
pub proof fn law_a_new_sandbox_is_believed(
    place: crate::store::StatePlace,
    n: NewSandbox,
    functions: Seq<JsonView>,
)
    requires
        safe_segment(n.experiment_id@),
        n.sandbox_dir@ == crate::store::sandbox_dir(place, n.experiment_id@),
    ensures
        crate::store::believed(place, new_record(n, functions)),
{
}

/// What is answered where a sandbox was made.
pub fn create_sandbox_payload(experiment_id: &str, function: &str, extraction: Extraction) -> (r: Json)
    ensures
        r@ == JsonView::object().with(
            "sandbox_name"@,
            JsonView::Str(experiment_id@ + ":"@ + function@),
        ).with("experiment_id"@, JsonView::Str(experiment_id@)).with(
            "ast_stmt_count"@,
            JsonView::opt_int(
                match extraction.ast_stmt_count {
                    Some(n) => Some(n as int),
                    None => None,
                },
            ),
        ).with("extraction_report"@, extraction.extraction_report@).with(
            "logic_dependencies"@,
            extraction.logic_dependencies@,
        ),
{
    let count: Option<u64> = match extraction.ast_stmt_count {
        Some(n) => Some(n as u64),
        None => None,
    };
    Json::object().with("sandbox_name", Json::Str(cat3(experiment_id, ":", function))).with(
        "experiment_id",
        Json::str(experiment_id),
    ).with("ast_stmt_count", Json::opt_num(count)).with(
        "extraction_report",
        extraction.extraction_report,
    ).with("logic_dependencies", extraction.logic_dependencies)
}

// ---------------------------------------------------------------------------
// Deleting one
// ---------------------------------------------------------------------------

/// The experiment whose sandbox is to be deleted: the one that is named before a colon, or the
/// whole name.
pub fn deleted_experiment(sandbox_name: &str) -> (r: String)
    ensures
        r@ == (match scope_of(sandbox_name@) {
            ScopeView::Sandbox { experiment_id, function } => experiment_id,
            ScopeView::Main(name) => name,
        }),
{
    match scope_for_function(sandbox_name) {
        FunctionScope::Sandbox { experiment_id, function: _ } => experiment_id,
        FunctionScope::Main(name) => name,
    }
}

/// The name of a sandbox that is answered when it is made means that sandbox and that function
/// wherever it is used, for every experiment that a sandbox can have.
pub proof fn law_a_sandbox_name_means_its_sandbox(experiment_id: Seq<char>, function: Seq<char>)
    requires
        safe_segment(experiment_id),
    ensures
        scope_of(experiment_id + ":"@ + function) == (ScopeView::Sandbox { experiment_id, function }),
{
    reveal_strlit(":");
    let s = experiment_id + ":"@ + function;
    let n = experiment_id.len() as int;
    assert(":"@ =~= seq![':']);
    assert(s.subrange(n, n + 1) =~= ":"@);
    assert forall|j: int| 0 <= j < n implies !#[trigger] stands_at(s, ":"@, j) by {
        if stands_at(s, ":"@, j) {
            assert(s.subrange(j, j + 1)[0] == s[j]);
            assert(s[j] == experiment_id[j]);
            assert(crate::store::is_segment_char(experiment_id[j]));
        }
    }
    lemma_first_at(s, ":"@, 0, n);
    assert(s.subrange(0, n) =~= experiment_id);
    assert(s.subrange(n + 1, s.len() as int) =~= function);
}

/// The first record of an experiment from `i` on.
pub open spec fn record_from(s: Seq<SandboxView>, experiment_id: Seq<char>, i: int) -> Option<
    SandboxView,
>
    decreases s.len() - i,
{
    if i < 0 || i >= s.len() {
        None
    } else if s[i].experiment_id == experiment_id {
        Some(s[i])
    } else {
        record_from(s, experiment_id, i + 1)
    }
}

/// The record of an experiment among those that were read.
pub fn find_record(disk: &Vec<SandboxMetadata>, experiment_id: &str) -> (r: Option<SandboxMetadata>)
    ensures
        match (r, record_from(records(disk@), experiment_id@, 0)) {
            (Some(m), Some(v)) => m@ == v,
            (None, None) => true,
            _ => false,
        },
{
    let ghost s = records(disk@);
    let mut i: usize = 0;
    while i < disk.len()
        invariant
            i <= disk@.len(),
            s == records(disk@),
            record_from(s, experiment_id@, 0) == record_from(s, experiment_id@, i as int),
        decreases disk@.len() - i,
    {
        assert(s[i as int] == disk@[i as int]@);
        if same(disk[i].experiment_id.as_str(), experiment_id) {
            return Some(disk[i].copy());
        }
        i = i + 1;
    }
    assert(s.len() == disk@.len());
    None
}

/// The function whose sandbox is deleted: by what this server runs, else by what was recorded. A
/// sandbox that an earlier server left is only recorded.
pub fn deleted_function(
    registry: &SandboxRegistry,
    disk: &Vec<SandboxMetadata>,
    experiment_id: &str,
) -> (r: Option<String>)
    ensures
        opt_string(r) == (if registry@.dom().contains(experiment_id@) {
            Some(registry@[experiment_id@].original_function)
        } else {
            match record_from(records(disk@), experiment_id@, 0) {
                Some(m) => Some(m.original_function),
                None => None,
            }
        }),
{
    match registry.metadata(experiment_id) {
        Some(m) => {
            return Some(owned(m.original_function.as_str()));
        },
        None => {},
    }
    match find_record(disk, experiment_id) {
        Some(m) => Some(m.original_function),
        None => None,
    }
}

// ---------------------------------------------------------------------------
// What holds of sandboxes and what is told of them
// ---------------------------------------------------------------------------

/// A sandbox that answers is live; one that does not is deleted or stale by its record.
pub proof fn law_the_state_of_a_sandbox(m: SandboxView, active: bool, deleted: bool)
    ensures
        runtime_status(true, deleted) == "live"@,
        runtime_status(false, true) == "deleted"@,
        runtime_status(false, false) == "stale"@,
        sandbox_process(m, true) == "running"@,
        m.deleted ==> sandbox_process(m, false) == "deleted"@,
        !m.deleted ==> sandbox_process(m, false) == "unknown"@,
{
}

/// What is listed of a sandbox is what its record says, with its state and what is concluded of its
/// function; only one that neither answers nor was deleted can be recovered.
#[verifier::rlimit(60)]
pub proof fn law_a_sandbox_is_listed_as_it_is(
    m: SandboxView,
    c: FunctionVerificationState,
    active: bool,
    alive: bool,
    process: JsonView,
)
    ensures
        ({
            let e = list_entry(m, Some(&c), active, alive, process);
            &&& e.text("experiment_id"@) == Some(m.experiment_id)
            &&& e.text("function"@) == Some(m.original_function)
            &&& e.text("sandbox_name"@) == Some(m.experiment_id + ":"@ + m.original_function)
            &&& e.get("pid"@) == Some(JsonView::num(m.sandbox_pid as int))
            &&& e.text("sandbox_dir"@) == Some(m.sandbox_dir)
            &&& e.text("sandbox_socket"@) == Some(m.sandbox_socket)
            &&& e.text("declaration_marker"@) == Some(m.declaration_marker)
            &&& e.flag("active"@) == Some(active)
            &&& e.flag("process_alive"@) == Some(alive)
            &&& e.flag("recoverable"@) == Some(!active && !m.deleted)
            &&& e.flag("clean"@) == Some(c.sandbox_clean)
            &&& e.flag("deleted"@) == Some(m.deleted)
            &&& e.get("annotation_count"@) == Some(JsonView::num(c.annotation_count as int))
            &&& e.text("created_at"@) == Some(m.created_at)
            &&& e.text("last_activity"@) == Some(m.last_activity)
            &&& e.get("process"@) == Some(process)
            &&& e.text("runtime_status"@) == Some(runtime_status(active, m.deleted))
            &&& e.get("last_wp_summary"@) == Some(JsonView::or_null(opt_value(c.wp_summary)))
        }),
        list_entry(m, None, active, alive, process).flag("clean"@) == Some(true),
        list_entry(m, None, active, alive, process).get("annotation_count"@) == Some(
            JsonView::num(0),
        ),
{
    broadcast use crate::json::group_object_reads;

    reveal_strlit("experiment_id");
    reveal_strlit("function");
    reveal_strlit("original_function");
    reveal_strlit("sandbox_name");
    reveal_strlit("pid");
    reveal_strlit("sandbox_pid");
    reveal_strlit("source_path");
    reveal_strlit("sandbox_dir");
    reveal_strlit("socket_path");
    reveal_strlit("sandbox_socket");
    reveal_strlit("declaration_marker");
    reveal_strlit("active");
    reveal_strlit("process_alive");
    reveal_strlit("stale");
    reveal_strlit("recoverable");
    reveal_strlit("runtime_status");
    reveal_strlit("clean");
    reveal_strlit("sandbox_clean");
    reveal_strlit("deleted");
    reveal_strlit("sandbox_deleted");
    reveal_strlit("annotation_count");
    reveal_strlit("ast_stmt_count");
    reveal_strlit("created_at");
    reveal_strlit("last_activity");
    reveal_strlit("process");
    reveal_strlit("last_wp_summary");
    assert("experiment_id"@.len() == 13 && "function"@.len() == 8);
    assert("original_function"@.len() == 17 && "sandbox_name"@.len() == 12);
    assert("pid"@.len() == 3 && "sandbox_pid"@.len() == 11);
    assert("source_path"@.len() == 11 && "sandbox_dir"@.len() == 11);
    assert("socket_path"@.len() == 11 && "sandbox_socket"@.len() == 14);
    assert("declaration_marker"@.len() == 18 && "active"@.len() == 6);
    assert("process_alive"@.len() == 13 && "stale"@.len() == 5);
    assert("recoverable"@.len() == 11 && "runtime_status"@.len() == 14);
    assert("clean"@.len() == 5 && "sandbox_clean"@.len() == 13);
    assert("deleted"@.len() == 7 && "sandbox_deleted"@.len() == 15);
    assert("annotation_count"@.len() == 16 && "ast_stmt_count"@.len() == 14);
    assert("created_at"@.len() == 10 && "last_activity"@.len() == 13);
    assert("process"@.len() == 7 && "last_wp_summary"@.len() == 15);
    assert("experiment_id"@[0] != "process_alive"@[0]);
    assert("experiment_id"@[0] != "sandbox_clean"@[0]);
    assert("experiment_id"@[0] != "last_activity"@[0]);
    assert("sandbox_pid"@[1] != "source_path"@[1]);
    assert("sandbox_pid"@[8] != "sandbox_dir"@[8]);
    assert("sandbox_pid"@[1] != "socket_path"@[1]);
    assert("sandbox_pid"@[0] != "recoverable"@[0]);
    assert("source_path"@[1] != "sandbox_dir"@[1]);
    assert("source_path"@[2] != "socket_path"@[2]);
    assert("source_path"@[0] != "recoverable"@[0]);
    assert("sandbox_dir"@[1] != "socket_path"@[1]);
    assert("sandbox_dir"@[0] != "recoverable"@[0]);
    assert("socket_path"@[0] != "recoverable"@[0]);
    assert("sandbox_socket"@[0] != "runtime_status"@[0]);
    assert("sandbox_socket"@[0] != "ast_stmt_count"@[0]);
    assert("process_alive"@[0] != "sandbox_clean"@[0]);
    assert("process_alive"@[0] != "last_activity"@[0]);
    assert("stale"@[0] != "clean"@[0]);
    assert("runtime_status"@[0] != "ast_stmt_count"@[0]);
    assert("sandbox_clean"@[0] != "last_activity"@[0]);
    assert("deleted"@[0] != "process"@[0]);
    assert("sandbox_deleted"@[0] != "last_wp_summary"@[0]);
}

/// What is told of a process is what is known of it; it runs exactly where its status says so.
pub proof fn law_a_process_is_told_as_it_is(p: ProcessMetadata, errors: Seq<char>, messages: JsonView)
    ensures
        ({
            let r = process_report(p, errors, messages);
            &&& r.text("status"@) == Some(p.status@)
            &&& r.flag("running"@) == Some(p.status@ == "running"@)
            &&& r.get("pid"@) == Some(JsonView::num(p.pid as int))
            &&& r.get("command_line"@) == Some(JsonView::strings(texts(p.command_line@)))
            &&& r.text("socket_path"@) == Some(p.socket_path@)
            &&& r.get("stdout_log_path"@) == Some(JsonView::opt_text(opt_string(p.stdout_log_path)))
            &&& r.get("stderr_log_path"@) == Some(JsonView::opt_text(opt_string(p.stderr_log_path)))
            &&& r.text("startup_stderr_tail"@) == Some(errors)
            &&& r.get("plugin_load_messages"@) == Some(messages)
            &&& r.get("exit_status"@) == Some(JsonView::opt_text(opt_string(p.exit_status)))
        }),
{
    broadcast use crate::json::group_object_reads;

    reveal_strlit("status");
    reveal_strlit("running");
    reveal_strlit("pid");
    reveal_strlit("command_line");
    reveal_strlit("socket_path");
    reveal_strlit("stdout_log_path");
    reveal_strlit("stderr_log_path");
    reveal_strlit("startup_stderr_tail");
    reveal_strlit("plugin_load_messages");
    reveal_strlit("exit_status");
    assert("status"@.len() == 6 && "running"@.len() == 7);
    assert("pid"@.len() == 3 && "command_line"@.len() == 12);
    assert("socket_path"@.len() == 11 && "stdout_log_path"@.len() == 15);
    assert("stderr_log_path"@.len() == 15 && "startup_stderr_tail"@.len() == 19);
    assert("plugin_load_messages"@.len() == 20 && "exit_status"@.len() == 11);
    assert("socket_path"@[0] != "exit_status"@[0]);
    assert("stdout_log_path"@[3] != "stderr_log_path"@[3]);
}

/// The log tells the last errors; what was seen at the start stands in where the log is empty or
/// cannot be read.
pub proof fn law_the_log_tells_the_last_errors(log: Seq<char>, start: Seq<char>)
    ensures
        log.len() > 0 ==> last_errors(Some(log), Some(start)) == log,
        log.len() > 0 ==> last_errors(Some(log), None) == log,
        last_errors(None, Some(start)) == start,
        log.len() == 0 ==> last_errors(Some(log), Some(start)) == start,
        last_errors(None, None).len() == 0,
{
}

proof fn lemma_recorded_stays(disk: Seq<SandboxView>, live: Seq<SandboxView>, j: int)
    requires
        0 <= j < disk.len(),
        !has_id(live, disk[j].experiment_id),
    ensures
        not_live(disk, live).contains((disk[j], false)),
    decreases disk.len(),
{
    if j == disk.len() - 1 {
        let r = not_live(disk, live);
        assert(r.last() == (disk[j], false));
        assert(r[r.len() - 1] == (disk[j], false));
    } else {
        lemma_recorded_stays(disk.drop_last(), live, j);
        let before = not_live(disk.drop_last(), live);
        let k = choose|k: int| 0 <= k < before.len() && before[k] == (disk[j], false);
        assert(not_live(disk, live)[k] == (disk[j], false));
    }
}

/// Every live sandbox is known as live, and every recorded one that is not live is known as well.
pub proof fn law_no_sandbox_is_forgotten(live: Seq<SandboxView>, disk: Seq<SandboxView>, i: int, j: int)
    ensures
        0 <= i < live.len() ==> known(live, disk)[i] == (live[i], true),
        0 <= j < disk.len() && !has_id(live, disk[j].experiment_id) ==> known(live, disk).contains(
            (disk[j], false),
        ),
{
    if 0 <= j < disk.len() && !has_id(live, disk[j].experiment_id) {
        lemma_recorded_stays(disk, live, j);
        let n = not_live(disk, live);
        let k = choose|k: int| 0 <= k < n.len() && n[k] == (disk[j], false);
        assert(known(live, disk)[live.len() + k] == (disk[j], false));
    }
}

/// The list counts its sandboxes, names the limit, and holds each of them once, by name.
pub proof fn law_sandboxes_are_listed_in_order(entries: Seq<JsonView>, max: int)
    ensures
        sandbox_list(entries, max).get("count"@) == Some(JsonView::num(entries.len() as int)),
        sandbox_list(entries, max).get("max_sandboxes"@) == Some(JsonView::num(max)),
        sandbox_list(entries, max).list("sandboxes"@) is Some,
        sandbox_list(entries, max).list("sandboxes"@)->0.to_multiset() == entries.to_multiset(),
        crate::order::sorted_by(sandbox_list(entries, max).list("sandboxes"@)->0, entry_order()),
{
    broadcast use crate::json::group_object_reads;

    reveal_strlit("count");
    reveal_strlit("max_sandboxes");
    reveal_strlit("sandboxes");
    assert("count"@.len() == 5 && "max_sandboxes"@.len() == 13);
    assert("sandboxes"@.len() == 9);
    let o = entry_order();
    assert forall|a: JsonView| !#[trigger] o(a, a) by {
        crate::order::law_text_lt_irreflexive(entry_id(a));
    }
    assert forall|a: JsonView, b: JsonView, c: JsonView| #[trigger]
        o(a, b) && #[trigger] o(b, c) implies o(a, c) by {
        crate::order::law_text_lt_transitive(entry_id(a), entry_id(b), entry_id(c));
    }
    assert forall|a: JsonView, b: JsonView, c: JsonView|
        !#[trigger] o(a, b) && !#[trigger] o(b, c) implies !o(a, c) by {
        crate::order::law_text_order();
        let t = crate::order::text_order();
        assert(!t(entry_id(a), entry_id(b)) && !t(entry_id(b), entry_id(c)));
        assert(!t(entry_id(a), entry_id(c)));
    }
    assert(crate::order::is_order(o));
    crate::order::law_sort_by(entries, entry_order());
}

/// An extraction that failed tells why; one that succeeded gives its source, the number of its
/// statements and its two reports.
pub proof fn law_an_extraction_is_read(result: JsonView, e: Extraction, why: Seq<char>, t: Seq<char>)
    ensures
        result.flag("success"@) != Some(true) && result.text("error"@) == Some(why)
            ==> extraction_error(result) == Some(
            ToolErrorView::internal("extract failed: "@ + why),
        ),
        result.flag("success"@) == Some(true) && result.text("source"@) is None
            ==> extraction_error(result) == Some(
            ToolErrorView::internal("extract returned no source"@),
        ),
        result.flag("success"@) == Some(true) && result.text("source"@) == Some(t)
            ==> extraction_error(result) is None,
        is_extraction(e, result) && result.text("source"@) == Some(t) ==> e.source@ == t,
        is_extraction(e, result) && result.get("extraction_report"@) is Some
            ==> e.extraction_report@ == result.get("extraction_report"@)->0,
        is_extraction(e, result) && result.get("logic_dependencies"@) is Some
            ==> e.logic_dependencies@ == result.get("logic_dependencies"@)->0,
        is_extraction(e, result) && result.list("sids"@) is Some && result.list("sids"@)->0.len()
            <= u32::MAX ==> e.ast_stmt_count is Some && e.ast_stmt_count->0 == result.list(
            "sids"@,
        )->0.len(),
        is_extraction(e, result) && result.list("sids"@) is None ==> e.ast_stmt_count is None,
{
}

/// A name that is asked for counts without the white space around it, and a blank one does not
/// count; it is taken while its sandbox is live, or its process runs and it was not deleted.
pub proof fn law_when_a_name_is_taken(
    known: Seq<(SandboxView, bool)>,
    alive: Seq<bool>,
    id: Seq<char>,
    i: int,
    asked: Seq<char>,
)
    requires
        known.len() == alive.len(),
    ensures
        trim_spec(asked).len() > 0 ==> asked_id(Some(asked)) == Some(trim_spec(asked)),
        trim_spec(asked).len() == 0 ==> asked_id(Some(asked)) is None,
        asked_id(None) is None,
        0 <= i < known.len() && known[i].0.experiment_id == id && known[i].1 ==> id_taken(
            known,
            alive,
            id,
        ),
        0 <= i < known.len() && known[i].0.experiment_id == id && !known[i].0.deleted && alive[i]
            ==> id_taken(known, alive, id),
        (forall|j: int|
            0 <= j < known.len() ==> (#[trigger] known[j]).0.experiment_id != id || (!known[j].1 && (
            known[j].0.deleted || !alive[j]))) ==> !id_taken(known, alive, id),
{
}

/// The record of a new sandbox says what it was made of: it is not deleted, it was active when it
/// was made, and its socket and its logs stand in its directory.
pub proof fn law_a_new_record_says_what_it_is(n: NewSandbox, functions: Seq<JsonView>)
    ensures
        ({
            let r = new_record(n, functions);
            &&& r.experiment_id == n.experiment_id@
            &&& r.original_function == n.function@
            &&& r.sandbox_dir == n.sandbox_dir@
            &&& r.sandbox_pid == n.sandbox_pid
            &&& !r.deleted
            &&& r.created_at == n.now@ && r.last_activity == n.now@
            &&& r.command_line == texts(n.command_line@)
            &&& r.startup_stderr_tail == Some(n.startup_tail@)
            &&& r.sandbox_socket == joined(n.sandbox_dir@, "frama-c.sock"@)
            &&& r.stdout_log_path == Some(joined(n.sandbox_dir@, "sandbox.stdout.log"@))
            &&& r.stderr_log_path == Some(joined(n.sandbox_dir@, "sandbox.stderr.log"@))
            &&& decl_from(functions, n.function@, 0) is Some ==> Some(r.declaration_marker)
                == decl_from(functions, n.function@, 0)
        }),
{
}

proof fn lemma_record_from(s: Seq<SandboxView>, id: Seq<char>, i: int, k: int)
    requires
        0 <= i <= k < s.len(),
        s[k].experiment_id == id,
        forall|j: int| i <= j < k ==> (#[trigger] s[j]).experiment_id != id,
    ensures
        record_from(s, id, i) == Some(s[k]),
    decreases k - i,
{
    if i < k {
        lemma_record_from(s, id, i + 1, k);
    }
}

proof fn lemma_no_record_from(s: Seq<SandboxView>, id: Seq<char>, i: int)
    requires
        0 <= i,
        forall|j: int| i <= j < s.len() ==> (#[trigger] s[j]).experiment_id != id,
    ensures
        record_from(s, id, i) is None,
    decreases s.len() - i,
{
    if i < s.len() {
        lemma_no_record_from(s, id, i + 1);
    }
}

/// A record is found by its name, the first one first, and not where no record has the name.
pub proof fn law_a_record_is_found_by_its_name(s: Seq<SandboxView>, id: Seq<char>, k: int)
    ensures
        0 <= k < s.len() && s[k].experiment_id == id && (forall|j: int|
            0 <= j < k ==> (#[trigger] s[j]).experiment_id != id) ==> record_from(s, id, 0) == Some(
            s[k],
        ),
        (forall|j: int| 0 <= j < s.len() ==> (#[trigger] s[j]).experiment_id != id) ==> record_from(
            s,
            id,
            0,
        ) is None,
{
    if 0 <= k < s.len() && s[k].experiment_id == id && (forall|j: int|
        0 <= j < k ==> (#[trigger] s[j]).experiment_id != id) {
        lemma_record_from(s, id, 0, k);
    }
    if forall|j: int| 0 <= j < s.len() ==> (#[trigger] s[j]).experiment_id != id {
        lemma_no_record_from(s, id, 0);
    }
}

/// A limit that is reached and a name that is taken are told with what to do about it.
pub proof fn law_refusals_say_what_to_do(max: int, id: Seq<char>)
    ensures
        limit_reached(max).message == "sandbox limit "@ + decimal(max as nat)
            + " reached; delete a sandbox or raise --max-sandboxes"@,
        id_in_use(id).message == "experiment_id '"@ + id
            + "' already in use; delete it with delete_sandbox or pick a different ID"@,
{
}

} // verus!
