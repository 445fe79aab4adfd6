//! What is said to a caller about a goal that did not prove.

use vstd::prelude::*;

verus! {

/// What to do about a runtime-error check that timed out.
pub const TIMEOUT_RTE: &'static str =
    "Set retry_unproved to tell a slow goal from an unprovable one: it re-runs at double the budget and reports which flip. If none flip, more time is not the fix. This one is a runtime-error check, so read the goal's own predicate rather than its name: the name's trailing number counts siblings from one statement and names none of them, while the predicate says which access is open. context {want: [\"rte_obligations\"]} adds the drafted requires, which no goal carries, and is the fallback when this goal carries no predicate either.";

/// What to do about another goal that timed out.
pub const TIMEOUT_OTHER: &'static str =
    "Set retry_unproved to tell a slow goal from an unprovable one: it re-runs at double the budget and reports which flip. If none flip, more time is not the fix -- read the VC and supply the missing fact.";

/// What to do when a prover is missing.
pub const MISSING_PROVER: &'static str =
    "Inspect capabilities and prover setup before changing annotations.";

/// What to do when Why3 is not configured.
pub const MISSING_WHY3: &'static str =
    "Run self_check and configure Why3 provers before changing annotations.";

/// What to do when Frama-C rejected a request.
pub const REQUEST_REJECTED: &'static str =
    "Run self_check and inspect Frama-C request compatibility before changing annotations.";

/// What to do when no prover returned a verdict.
pub const INTERNAL_ERROR: &'static str =
    "No prover returned a verdict, so this is not evidence that the C code or ACSL is wrong. A goal record says only FAILED; the reason is on the message stream, which check reports as wp_backend_diagnosis and context {want: [\"messages\"]} returns directly. If that names a Why3 anomaly, try the other memory model before touching the annotation: on Frama-C 33 a pointer cast reaching the goal aborts Why3 under Typed+nocast and proves under Typed+cast.";

/// What to do about a runtime-error check.
pub const RTE: &'static str =
    "The obligation is a runtime-error check, so the fix is a fact the caller must guarantee or the code must establish: the requires that rules the value out, an assert that carries the fact to this point, or a loop invariant that keeps the index in range. Strengthening the postcondition will not close it. Read the goal's own predicate to choose which: the goal usually carries one, and the open access then reads as \\valid(p + i) directly. Do not work from the goal name, which cannot distinguish siblings: the trailing number in mem_access_7 counts checks generated from one statement and names none of them. Guessing an invariant from the name costs a proof run per guess and does not converge. context {want: [\"rte_obligations\"]} covers both gaps: it drafts the requires, which no goal carries, and it is the fallback for the goals whose property row supplied no predicate to copy.";

/// What to do about a construct WP cannot handle or a name it does not know.
pub const UNSUPPORTED_PREDICATE: &'static str =
    "Two different faults share this branch. If the name is unbound, it has no definition in scope: declare the predicate or logic function, or include the header that does. If WP could not encode the construct, replace it with one the memory model handles: a quantifier over an integer range rather than over a set, an explicit valid_read over the range you index, or a named predicate whose definition is first-order. Under Typed+nocast a pointer cast is the usual culprit.";

/// What to do about a precondition that a call does not establish.
pub const CALLEE_REQUIRES: &'static str =
    "The callee's requires is not established at this call. Either the caller carries the fact to the call site, as its own requires or an assert before the call, or the callee asks for more than it needs and its requires should be weakened.";

/// What to do about behaviors that are not complete or not disjoint.
pub const BEHAVIOR_PARTITION: &'static str =
    "The behaviors do not cover the input space the way the clauses claim. Add the behavior for the case nothing assumes, or drop the complete behaviors clause that promises a partition the assumes do not form. Disjointness fails the other way: two assumes overlap and one has to be narrowed.";

/// What to do about a callee contract that says too little.
pub const CALLEE_CONTRACT: &'static str =
    "The callee's ensures does not say enough for the caller's goal. Strengthen the callee contract to state what it actually establishes and re-prove the callee; assuming the fact in the caller would be assuming what nothing checks.";

/// What to do about what a loop assigns.
pub const LOOP_ASSIGNS: &'static str =
    "The loop writes something its assigns does not list, so WP cannot tell what survives the loop. List every location the body writes, the induction variable included, and nothing more. Both directions cost: WP havocs everything the clause lists, so a location named but not written loses its facts across the loop just as one written but not named does.";

/// What to do about a loop variant.
pub const LOOP_VARIANT: &'static str =
    "The variant must be an integer expression that stays non-negative and strictly decreases on every iteration. Both halves fail the same way here: an expression that can go negative, and one that decreases on only some paths through the body.";

/// What to do about a loop invariant.
pub const LOOP_INVARIANT: &'static str =
    "A loop invariant has to hold on entry and survive the body, and the two fail differently. Failing on entry means it claims something the code has not done yet. Failing on preservation means it is too weak to imply itself after one iteration, and it usually needs the missing conjunct about what the body just did.";

/// What to do about what a function assigns.
pub const BAD_ASSIGNS: &'static str =
    "The assigns clause and the code disagree about what is written. Either the function writes a location the clause omits, which loses every fact about it, or the clause lists one the function leaves alone, which weakens every caller for nothing.";

/// What to do about a postcondition.
pub const WEAK_ENSURES: &'static str =
    "The postcondition does not follow from what the body establishes. Work back from the VC: either the code does not achieve the claim, or the facts that would prove it were lost at a loop boundary or a call, and the invariant or the callee contract is where they have to be reinstated.";

/// What to do about a precondition.
pub const MISSING_REQUIRES: &'static str =
    "The proof needs a fact no caller is obliged to supply. Add it as a requires so callers carry the obligation, or establish it in the body if the function can. Assuming it silently is the one option that proves nothing.";

/// What to do about a goal that nothing else is known of.
pub const PROVER_UNKNOWN: &'static str =
    "Inspect the VC details before changing annotations.";

/// What a setup failure means.
pub const BACKEND_UNAVAILABLE: &'static str =
    "WP was blocked by prover, request, or Frama-C setup; no code verdict is available until that is fixed.";

/// What a claim that could be checked at run time means.
pub const NEEDS_COUNTEREXAMPLE: &'static str =
    "WP alone cannot prove whether the specification is too weak, the specification is wrong, or the code really violates the property; collect an E-ACSL counterexample before reporting an implementation defect.";

/// What an unexplained goal means.
pub const NO_EVIDENCE: &'static str =
    "WP did not provide enough semantic evidence; inspect the VC before changing code or ACSL.";

/// What an unsuitable specification means.
pub const SPECIFICATION_WRONG: &'static str =
    "The ACSL shape is likely wrong for this proof obligation; correct the unsupported predicate or behavior split.";

/// What a weak specification means.
pub const SPECIFICATION_WEAK: &'static str =
    "The ACSL facts visible to WP are likely too weak for this proof obligation.";

/// Why a claim could be checked at run time.
pub const RUNTIME_CHECK: &'static str =
    "WP did not prove this claim; an external E-ACSL run may gather executed-path evidence about code, specification, or prover-strength issues.";

/// What to do about a goal that was retried in vain.
pub const ALREADY_RETRIED: &'static str =
    "This run already retried the goal at double the prover timeout and it did not flip, so time is not what it is short of. Read the VC, or supply the contract the obligation needs.";

/// Why an open runtime-error check is a problem.
pub const WHY_RTE: &'static str =
    "The runtime-error obligation is still open. When the goal carries a predicate, that names which check it is; when it carries none, context {want: [\"rte_obligations\"]} is where to look.";

/// Why a timeout is a problem.
pub const WHY_TIMEOUT: &'static str =
    "The prover timed out before proving this obligation.";

/// Why an internal failure is a problem.
pub const WHY_INTERNAL: &'static str =
    "Frama-C or WP reported an internal failure for this obligation.";

/// Why unsupported logic is a problem.
pub const WHY_UNSUPPORTED: &'static str =
    "The proof uses logic that WP could not handle.";

/// Why an unestablished precondition is a problem.
pub const WHY_CALLEE_REQUIRES: &'static str =
    "The caller has not established the callee precondition.";

/// Why a weak callee contract is a problem.
pub const WHY_CALLEE_CONTRACT: &'static str =
    "The callee contract does not expose enough postcondition information.";

/// Why an open behavior partition is a problem.
pub const WHY_BEHAVIORS: &'static str =
    "WP reported an open behavior partition obligation.";

/// Why a loop frame is a problem.
pub const WHY_LOOP_ASSIGNS: &'static str =
    "The loop frame does not cover the writes WP must reason about.";

/// Why an open loop variant is a problem.
pub const WHY_LOOP_VARIANT: &'static str =
    "The loop termination variant is still unproved.";

/// Why an open loop invariant is a problem.
pub const WHY_LOOP_INVARIANT: &'static str =
    "The loop invariant does not establish or preserve the needed property.";

/// Why a frame is a problem.
pub const WHY_ASSIGNS: &'static str =
    "The assigns frame does not match the writes WP observes.";

/// Why an open postcondition is a problem.
pub const WHY_ENSURES: &'static str =
    "The postcondition is still unproved for this function.";

/// Why a weak precondition is a problem.
pub const WHY_REQUIRES: &'static str =
    "The precondition is too weak for this proof obligation.";

/// Why an open runtime-error check of another category is a problem.
pub const WHY_RTE_KIND: &'static str =
    "The runtime-error obligation is still open.";

/// That nothing speaks of a timeout.
pub const NO_TIMEOUT: &'static str =
    "No timeout, cancellation, rejection, or delayed WP status evidence was found.";

/// That a goal timed out.
pub const GOAL_TIMEOUT: &'static str =
    "The WP goal itself reports a prover timeout; a higher prover timeout may help.";

/// That a goal has no final status yet.
pub const STATUS_PENDING: &'static str =
    "WP has no final prover timeout status yet; refresh goals before changing timeout.";

/// That goals reached the prover budget.
pub const GOALS_AT_BUDGET: &'static str =
    "Goals reached the prover budget without a verdict. That does not mean they need more time: an unprovable goal grinds to the budget too. Use retry_unproved to see whether any flip at double the budget.";

/// That a task speaks of a timeout.
pub const TASK_TIMEOUT: &'static str =
    "The WP task payload mentions timeout, but no goal-level prover timeout was observed.";

/// That a task was cancelled.
pub const TASK_CANCELLED: &'static str =
    "The WP task was cancelled or killed; increasing prover timeout is not the direct fix.";

/// That a task was rejected.
pub const TASK_REJECTED: &'static str =
    "Frama-C rejected a WP task request; inspect capabilities or request order.";

/// What a Why3 abort beside a pointer cast means.
pub const ANOMALY_CAST: &'static str =
    "Why3 aborted, so no prover answered these goals and their FAILED status is not a verdict on the C code or the ACSL. WP also warned about casts between incompatible pointer types at the lines below, and the model in force refuses casts. Re-run under Typed+cast before changing an annotation: an anomaly is not an unprovable goal.";

/// Why to prove again under another memory model.
pub const ANOMALY_CAST_RETRY: &'static str =
    "Prove the same obligations under a model that admits the pointer casts this code performs. If they prove there, the nocast run said nothing about them. The goal list then holds both models: a goal named typed_nocast_... is the crashed run's record, not a second failure, and only the typed_cast_... rows are this verdict.";

/// What a Why3 abort means.
pub const ANOMALY: &'static str =
    "Why3 aborted, so no prover answered these goals and their FAILED status is not a verdict on the C code or the ACSL. Establish the toolchain versions before changing an annotation.";

/// Why to establish the versions of the tools.
pub const ANOMALY_VERSIONS: &'static str =
    "Record the Frama-C, Why3, and prover versions the anomaly came from before touching the specification.";

/// What a run of the runtime checker does not cover.
pub const COVERAGE_WARNING: &'static str =
    "Runtime checks cover only executed paths and do not validate assigns clauses.";

} // verus!
