use crate::engine::error::NotConvergedError;
use vstd::prelude::*;

verus! {

/// The number of iterations after which the solver gives up.
pub const MAX_ITERS: u64 = 100;

/// What the solver does after `n_iters` iterations.
#[derive(Debug, Clone, Copy, PartialEq, Eq, Structural)]
pub enum Verdict {
    /// Take another step.
    Iterate,
    /// Stop: the iteration has settled.
    Converged,
    /// Stop: the iterations are used up.
    GiveUp,
}

/// The rule of the iteration: it goes on while iterations are left and the
/// last step did not meet the tolerances; it has failed once none is left,
/// whatever the last step did.
pub open spec fn verdict_of(n_iters: u64, converged: bool) -> Verdict {
    if n_iters >= MAX_ITERS {
        Verdict::GiveUp
    } else if converged {
        Verdict::Converged
    } else {
        Verdict::Iterate
    }
}

/// Decides how the solver goes on after `n_iters` iterations, of which the
/// last did or did not meet the tolerances.
pub fn verdict(n_iters: u64, converged: bool) -> (v: Verdict)
    ensures
        v == verdict_of(n_iters, converged),
{
    if n_iters >= MAX_ITERS {
        Verdict::GiveUp
    } else if converged {
        Verdict::Converged
    } else {
        Verdict::Iterate
    }
}

/// What a run that stopped after `n_iters` iterations hands back: the
/// count, or the error when the iterations were used up.
pub fn finish(n_iters: u64) -> (r: Result<u64, NotConvergedError>)
    ensures
        n_iters < MAX_ITERS ==> r == Ok::<u64, NotConvergedError>(n_iters),
        n_iters >= MAX_ITERS ==> r == Err::<u64, NotConvergedError>(NotConvergedError),
{
    if n_iters < MAX_ITERS {
        Ok(n_iters)
    } else {
        Err(NotConvergedError)
    }
}

/// A run never hands back a count that reaches the limit, and a run that
/// is told to go on always has an iteration left.
pub proof fn lemma_iterations_bounded(n_iters: u64, converged: bool)
    ensures
        verdict_of(n_iters, converged) == Verdict::Iterate ==> n_iters + 1 <= MAX_ITERS,
        verdict_of(n_iters, converged) == Verdict::Converged ==> n_iters < MAX_ITERS,
{
}

} // verus!
