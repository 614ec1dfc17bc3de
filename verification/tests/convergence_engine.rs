//! The convergence engine on mock attempt sequences: success after
//! exactly the expected number of polls, timeout, and the
//! zero-timeout/immediate-failure edges.
use hvctrl::convergence::{converge, AttemptOutcome, Convergence, Decision};
use hvctrl::types::{ErrorKind, VmError};

fn already() -> VmError {
    VmError::from(ErrorKind::InvalidPowerState(hvctrl::types::VmPowerState::NotRunning))
}

#[test]
fn succeeds_after_exactly_n_polls() {
    let outcomes = vec![
        AttemptOutcome::Issued,
        AttemptOutcome::Issued,
        AttemptOutcome::Issued,
        AttemptOutcome::Converged(already()),
        AttemptOutcome::Fatal(already()),
    ];
    let deadlines = vec![false, false, false, false, false];
    let (r, attempts) = converge(&outcomes, &deadlines);
    assert_eq!(r, Ok(()));
    assert_eq!(attempts, 4);
}

#[test]
fn times_out_when_target_never_reached() {
    // A backend that always reports the VM still running: every attempt
    // is accepted but never converges; the deadline passes at the third
    // observation. At least two transition attempts happened.
    let outcomes = vec![
        AttemptOutcome::Issued,
        AttemptOutcome::Issued,
        AttemptOutcome::Issued,
    ];
    let deadlines = vec![false, false, true];
    let (r, attempts) = converge(&outcomes, &deadlines);
    assert_eq!(r, Err(VmError::from(ErrorKind::Timeout)));
    assert_eq!(attempts, 3);
    assert!(attempts >= 2);
}

#[test]
fn zero_timeout_never_loops() {
    let outcomes = vec![AttemptOutcome::Issued, AttemptOutcome::Issued];
    let deadlines = vec![true, true];
    let (r, attempts) = converge(&outcomes, &deadlines);
    assert_eq!(r, Err(VmError::from(ErrorKind::Timeout)));
    assert_eq!(attempts, 1);
}

#[test]
fn converged_without_any_issued_surfaces_backend_error() {
    let outcomes = vec![AttemptOutcome::Converged(already())];
    let deadlines = vec![false];
    let (r, attempts) = converge(&outcomes, &deadlines);
    assert_eq!(r, Err(already()));
    assert_eq!(attempts, 1);
}

#[test]
fn fatal_error_aborts_at_once() {
    let fatal = VmError::from(ErrorKind::VmNotFound);
    let outcomes = vec![AttemptOutcome::Fatal(fatal.clone()), AttemptOutcome::Issued];
    let deadlines = vec![false, false];
    let (r, attempts) = converge(&outcomes, &deadlines);
    assert_eq!(r, Err(fatal));
    assert_eq!(attempts, 1);
}

#[test]
fn step_remembers_issued_attempts() {
    let mut engine = Convergence::new();
    assert!(matches!(
        engine.step(AttemptOutcome::Issued, false),
        Decision::Continue
    ));
    assert!(matches!(
        engine.step(AttemptOutcome::Converged(already()), false),
        Decision::Done
    ));
}
