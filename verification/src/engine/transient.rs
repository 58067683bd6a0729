use crate::engine::newtons_method::MAX_ITERS;
use vstd::prelude::*;

verus! {

/// The number of earlier time points that the error estimate needs.
pub const HISTORY_MIN: usize = 3;

/// What the step controller does with a trial step.
#[derive(Debug, Clone, Copy, PartialEq, Eq, Structural)]
pub enum StepAction {
    /// Drop the trial, halve the step and try again.
    Halve,
    /// Estimate the truncation error of the trial and judge again.
    Estimate,
    /// Keep the trial; `grow` tells whether the next step is twice as long.
    Accept { grow: bool },
}

/// The rule after the solver ran on a trial step: a run that used up its
/// iterations halves the step; with fewer than three earlier time points
/// the trial is kept and the step stays; otherwise the error is estimated.
pub open spec fn after_solve_spec(n_iters: u64, earlier: nat) -> StepAction {
    if n_iters >= MAX_ITERS {
        StepAction::Halve
    } else if earlier < HISTORY_MIN {
        StepAction::Accept { grow: false }
    } else {
        StepAction::Estimate
    }
}

/// The rule after the error was estimated: too large an error halves the
/// step; otherwise the trial is kept, and the step doubles when the error
/// is small in both classes and the doubled step stays within the cap.
pub open spec fn after_estimate_spec(too_big: bool, small: bool, room: bool) -> StepAction {
    if too_big {
        StepAction::Halve
    } else {
        StepAction::Accept { grow: small && room }
    }
}

/// Judges a trial step by the number of iterations the solver took and the
/// number of time points recorded before the trial.
pub fn after_solve(n_iters: u64, earlier: usize) -> (a: StepAction)
    ensures
        a == after_solve_spec(n_iters, earlier as nat),
{
    if n_iters >= MAX_ITERS {
        StepAction::Halve
    } else if earlier < HISTORY_MIN {
        StepAction::Accept { grow: false }
    } else {
        StepAction::Estimate
    }
}

/// Judges a trial step by its estimated error: `too_big` tells that the
/// error exceeds the tolerance in one class, `small` that it lies below a
/// tenth of the absolute tolerance in both, `room` that the step is at
/// most half the cap.
pub fn after_estimate(too_big: bool, small: bool, room: bool) -> (a: StepAction)
    ensures
        a == after_estimate_spec(too_big, small, room),
{
    if too_big {
        StepAction::Halve
    } else {
        StepAction::Accept { grow: small && room }
    }
}

/// The time points that the error estimate reads, as the places of the
/// first and the last of them: the last four of `recorded`, or nothing
/// when fewer are recorded.
pub fn window(recorded: usize) -> (w: Option<(usize, usize)>)
    ensures
        recorded < 4 ==> w.is_none(),
        recorded >= 4 ==> w == Some(((recorded - 4) as usize, (recorded - 1) as usize)),
{
    if recorded >= 4 {
        Some((recorded - 4, recorded - 1))
    } else {
        None
    }
}

/// The error is only ever estimated with four time points at hand, the
/// trial included, and a step never grows on a trial that was not judged by
/// its error.
pub proof fn lemma_estimate_has_history(n_iters: u64, earlier: nat)
    ensures
        after_solve_spec(n_iters, earlier) == StepAction::Estimate ==> earlier + 1 >= 4 && n_iters
            < MAX_ITERS,
        after_solve_spec(n_iters, earlier) != (StepAction::Accept { grow: true }),
{
}

} // verus!
