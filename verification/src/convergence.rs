//! The power-state convergence engine shared by the backend adapters.
//!
//! A power transition is eventually consistent: the backend's transition
//! call usually returns before the VM reaches the requested state, and
//! re-issuing it while the VM converges is harmless but not progress. The
//! engine classifies each attempt, remembers whether any attempt was
//! accepted, and decides whether to stop, fail, or try again; the caller
//! owns the clock and the sleep between attempts.
use crate::types::{spec_error, ErrorKind, VmError, VmResult};
use vstd::prelude::*;

verus! {

/// One attempt of a transition command, classified by the backend adapter.
#[derive(Debug)]
pub enum AttemptOutcome {
    /// The backend accepted the transition command.
    Issued,
    /// The backend reports it is still moving toward the target state.
    Converging,
    /// The backend reports the VM is already in the target state. This is
    /// success when some earlier attempt was accepted, and carries the
    /// error to surface when none ever was.
    Converged(VmError),
    /// Any other error; it aborts the loop.
    Fatal(VmError),
}

/// What the engine tells the caller to do after one attempt.
#[derive(Debug)]
pub enum Decision {
    /// The VM reached the target state.
    Done,
    /// The loop aborts with this error.
    Fail(VmError),
    /// Sleep briefly and try again.
    Continue,
}

/// What `Convergence::step` decides from the running flag, the classified
/// attempt, and whether the deadline has passed.
pub open spec fn step_spec(
    issued_ok: bool,
    outcome: AttemptOutcome,
    deadline_passed: bool,
) -> Decision {
    match outcome {
        AttemptOutcome::Issued | AttemptOutcome::Converging => if deadline_passed {
            Decision::Fail(spec_error(ErrorKind::Timeout))
        } else {
            Decision::Continue
        },
        AttemptOutcome::Converged(e) => if issued_ok {
            Decision::Done
        } else {
            Decision::Fail(e)
        },
        AttemptOutcome::Fatal(e) => Decision::Fail(e),
    }
}

/// Whether the flag remembers a successful attempt after this outcome.
pub open spec fn flag_after(issued_ok: bool, outcome: AttemptOutcome) -> bool {
    issued_ok || outcome is Issued
}

impl Clone for AttemptOutcome {
    fn clone(&self) -> (r: Self)
        ensures
            r == *self,
    {
        match self {
            AttemptOutcome::Issued => AttemptOutcome::Issued,
            AttemptOutcome::Converging => AttemptOutcome::Converging,
            AttemptOutcome::Converged(e) => AttemptOutcome::Converged(e.clone()),
            AttemptOutcome::Fatal(e) => AttemptOutcome::Fatal(e.clone()),
        }
    }
}

/// The engine's state across attempts: whether any transition command was
/// ever accepted.
#[derive(Debug)]
pub struct Convergence {
    pub issued_ok: bool,
}

impl Convergence {
    /// A fresh engine: no attempt has been accepted yet.
    pub fn new() -> (r: Self)
        ensures
            r.issued_ok == false,
    {
        Convergence { issued_ok: false }
    }

    /// Feeds one classified attempt to the engine. `deadline_passed` says
    /// whether the caller's timeout has elapsed; a caller without a
    /// timeout passes `false`.
    pub fn step(&mut self, outcome: AttemptOutcome, deadline_passed: bool) -> (r: Decision)
        ensures
            r == step_spec(old(self).issued_ok, outcome, deadline_passed),
            final(self).issued_ok == flag_after(old(self).issued_ok, outcome),
    {
        match outcome {
            AttemptOutcome::Issued => {
                self.issued_ok = true;
                if deadline_passed {
                    Decision::Fail(VmError::from(ErrorKind::Timeout))
                } else {
                    Decision::Continue
                }
            },
            AttemptOutcome::Converging => {
                if deadline_passed {
                    Decision::Fail(VmError::from(ErrorKind::Timeout))
                } else {
                    Decision::Continue
                }
            },
            AttemptOutcome::Converged(e) => {
                if self.issued_ok {
                    Decision::Done
                } else {
                    Decision::Fail(e)
                }
            },
            AttemptOutcome::Fatal(e) => Decision::Fail(e),
        }
    }
}

/// The result of running the engine over a whole sequence of classified
/// attempts: the loop's verdict and how many attempts it consumed, or
/// `None` when the sequence ran out before the loop ended.
pub open spec fn converge_spec(
    outcomes: Seq<AttemptOutcome>,
    deadline_passed: Seq<bool>,
    i: int,
    issued_ok: bool,
) -> Option<(VmResult<()>, int)>
    decreases outcomes.len() - i,
{
    if i < 0 || i >= outcomes.len() {
        None
    } else {
        match step_spec(issued_ok, outcomes[i], deadline_passed[i]) {
            Decision::Done => Some((Ok(()), i + 1)),
            Decision::Fail(e) => Some((Err(e), i + 1)),
            Decision::Continue => converge_spec(
                outcomes,
                deadline_passed,
                i + 1,
                flag_after(issued_ok, outcomes[i]),
            ),
        }
    }
}

/// Runs the engine over a pre-collected sequence of classified attempts,
/// pairing each with whether the deadline had passed when it was observed.
/// Returns the loop's verdict and the number of attempts consumed.
pub fn converge(outcomes: &Vec<AttemptOutcome>, deadline_passed: &Vec<bool>) -> (r: (
    VmResult<()>,
    usize,
))
    requires
        outcomes@.len() == deadline_passed@.len(),
        converge_spec(outcomes@, deadline_passed@, 0, false) is Some,
    ensures
        Some((r.0, r.1 as int)) == converge_spec(outcomes@, deadline_passed@, 0, false),
{
    let mut engine = Convergence::new();
    let n: usize = outcomes.len();
    let mut i: usize = 0;
    while i < n
        invariant
            n == outcomes@.len(),
            n == deadline_passed@.len(),
            0 <= i <= n,
            converge_spec(outcomes@, deadline_passed@, 0, false) == converge_spec(
                outcomes@,
                deadline_passed@,
                i as int,
                engine.issued_ok,
            ),
            converge_spec(outcomes@, deadline_passed@, i as int, engine.issued_ok) is Some,
        decreases n - i,
    {
        let outcome = outcomes[i].clone();
        proof {
            assert(outcome == outcomes@[i as int]);
        }
        match engine.step(outcome, deadline_passed[i]) {
            Decision::Done => {
                return (Ok(()), i + 1);
            },
            Decision::Fail(e) => {
                return (Err(e), i + 1);
            },
            Decision::Continue => {},
        }
        i = i + 1;
    }
    proof {
        assert(converge_spec(outcomes@, deadline_passed@, n as int, engine.issued_ok) is None);
    }
    // Unreachable: the precondition says the sequence ends the loop.
    (Err(VmError::from(ErrorKind::Timeout)), n)
}

/// Law: with a backend that reports the target state after exactly `n`
/// polls, the engine succeeds after `n + 1` attempts and never more. The
/// first `n` attempts must include at least one accepted transition and no
/// deadline may have passed before the target state is seen.
pub proof fn lemma_converge_success(
    outcomes: Seq<AttemptOutcome>,
    deadline_passed: Seq<bool>,
    i: int,
    n: int,
    issued_ok: bool,
)
    requires
        deadline_passed.len() == outcomes.len(),
        0 <= i <= n < outcomes.len(),
        forall|j: int|
            i <= j < n ==> (outcomes[j] is Issued || outcomes[j] is Converging),
        forall|j: int| i <= j < n ==> deadline_passed[j] == false,
        outcomes[n] is Converged,
        issued_ok || exists|j: int| i <= j < n && outcomes[j] is Issued,
    ensures
        converge_spec(outcomes, deadline_passed, i, issued_ok) == Some((Ok::<(), VmError>(()), n + 1)),
    decreases n - i,
{
    if i == n {
    } else {
        lemma_converge_success(
            outcomes,
            deadline_passed,
            i + 1,
            n,
            flag_after(issued_ok, outcomes[i]),
        );
    }
}

/// Law: with a backend that never reaches the target state, the engine
/// fails with `Timeout` at the first attempt observed after the deadline,
/// after exactly `k + 1` attempts. With a deadline that has already passed
/// at the first attempt it never loops.
pub proof fn lemma_converge_timeout(
    outcomes: Seq<AttemptOutcome>,
    deadline_passed: Seq<bool>,
    i: int,
    k: int,
    issued_ok: bool,
)
    requires
        deadline_passed.len() == outcomes.len(),
        0 <= i <= k < outcomes.len(),
        forall|j: int|
            i <= j <= k ==> (outcomes[j] is Issued || outcomes[j] is Converging),
        forall|j: int| i <= j < k ==> deadline_passed[j] == false,
        deadline_passed[k],
    ensures
        converge_spec(outcomes, deadline_passed, i, issued_ok) == Some((
            Err::<(), VmError>(spec_error(ErrorKind::Timeout)),
            k + 1,
        )),
    decreases k - i,
{
    if i == k {
    } else {
        lemma_converge_timeout(
            outcomes,
            deadline_passed,
            i + 1,
            k,
            flag_after(issued_ok, outcomes[i]),
        );
    }
}

/// Law: a first attempt that is already terminal ends the loop at once,
/// after exactly one attempt: a fatal error surfaces as itself, and a VM
/// found already in the target state before any accepted transition
/// surfaces the backend's own error.
pub proof fn lemma_converge_immediate(outcomes: Seq<AttemptOutcome>, deadline_passed: Seq<bool>)
    requires
        deadline_passed.len() == outcomes.len(),
        outcomes.len() > 0,
    ensures
        outcomes[0] matches AttemptOutcome::Fatal(e) ==> converge_spec(
            outcomes,
            deadline_passed,
            0,
            false,
        ) == Some((Err::<(), VmError>(e), 1int)),
        outcomes[0] matches AttemptOutcome::Converged(e) ==> converge_spec(
            outcomes,
            deadline_passed,
            0,
            false,
        ) == Some((Err::<(), VmError>(e), 1int)),
{
}

} // verus!
