//! Iteration bookkeeping for the spectral settling process.
//!
//! A settling run records one residual and one eigenvalue estimate per
//! iteration. Whether a residual is below the tolerance is a question about
//! real numbers; this module keeps the iteration count and the limits, and
//! decides when the run is exhausted and when convergence may be claimed.

use vstd::prelude::*;

verus! {

/// Number of iterations a fresh tracker waits before it checks convergence.
pub const DEFAULT_MIN_ITERATIONS: usize = 10;

/// Iteration counter of a settling run, with its upper limit and the number
/// of iterations that must pass before convergence is believed.
#[derive(Debug, Clone)]
pub struct IterationTracker {
    max_iterations: usize,
    min_iterations: usize,
    iteration: usize,
}

impl IterationTracker {
    /// Maximum number of iterations.
    pub closed spec fn limit(&self) -> nat {
        self.max_iterations as nat
    }

    /// Iterations recorded so far.
    pub closed spec fn count(&self) -> nat {
        self.iteration as nat
    }

    /// Iterations that must pass before convergence is checked.
    pub closed spec fn warmup(&self) -> nat {
        self.min_iterations as nat
    }

    /// A tracker that has recorded nothing, allows `max_iterations`
    /// iterations and checks convergence after the default warm-up.
    pub fn new(max_iterations: usize) -> (t: IterationTracker)
        ensures
            t.limit() == max_iterations,
            t.count() == 0,
            t.warmup() == DEFAULT_MIN_ITERATIONS,
    {
        IterationTracker { max_iterations, min_iterations: DEFAULT_MIN_ITERATIONS, iteration: 0 }
    }

    /// The same tracker with a different number of warm-up iterations.
    pub fn with_min_iterations(self, min: usize) -> (t: IterationTracker)
        ensures
            t.limit() == self.limit(),
            t.count() == self.count(),
            t.warmup() == min,
    {
        IterationTracker { min_iterations: min, ..self }
    }

    /// Record one iteration.
    pub fn record(&mut self)
        requires
            old(self).count() < usize::MAX,
        ensures
            final(self).count() == old(self).count() + 1,
            final(self).limit() == old(self).limit(),
            final(self).warmup() == old(self).warmup(),
    {
        self.iteration = self.iteration + 1;
    }

    /// Maximum number of iterations.
    pub fn max_iterations(&self) -> (n: usize)
        ensures
            n == self.limit(),
    {
        self.max_iterations
    }

    /// Current iteration count.
    pub fn iteration(&self) -> (n: usize)
        ensures
            n == self.count(),
    {
        self.iteration
    }

    /// Number of warm-up iterations.
    pub fn min_iterations(&self) -> (n: usize)
        ensures
            n == self.warmup(),
    {
        self.min_iterations
    }

    /// Whether the run has used up its iterations.
    pub fn exhausted(&self) -> (b: bool)
        ensures
            b == (self.count() >= self.limit()),
    {
        self.iteration >= self.max_iterations
    }

    /// Whether the run has converged, given whether the last recorded
    /// residual lies below the tolerance (`false` when nothing was recorded).
    ///
    /// No convergence is claimed before the warm-up has passed.
    pub fn is_converged(&self, last_residual_below_tolerance: bool) -> (b: bool)
        ensures
            b == (self.count() >= self.warmup() && last_residual_below_tolerance),
    {
        if self.iteration < self.min_iterations {
            return false;
        }
        last_residual_below_tolerance
    }
}

/// Once a run is exhausted, recording further iterations keeps it exhausted.
pub proof fn lemma_exhausted_stays_exhausted(before: IterationTracker, after: IterationTracker)
    requires
        after.limit() == before.limit(),
        after.count() >= before.count(),
        before.count() >= before.limit(),
    ensures
        after.count() >= after.limit(),
{
}

} // verus!
