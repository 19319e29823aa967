//! Benchmark targets: the iteration budgets of the measured operations.
//!
//! Each target fixes how many iterations a measurement runs; the timing
//! harness that drives them, being wall-clock work, lives outside the
//! core.

use vstd::prelude::*;

verus! {

/// Measures DAG construction and cycle detection.
pub struct WorkflowDagConstructionBenchmark {
    iterations: usize,
}

impl WorkflowDagConstructionBenchmark {
    /// The standard budget for this target.
    pub fn new() -> (r: WorkflowDagConstructionBenchmark)
        ensures
            r.spec_iterations() == 100,
    {
        WorkflowDagConstructionBenchmark { iterations: 100 }
    }

    /// The iteration budget.
    pub closed spec fn spec_iterations(self) -> usize {
        self.iterations
    }

    /// The iteration budget.
    pub fn iterations(&self) -> (r: usize)
        ensures
            r == self.spec_iterations(),
    {
        self.iterations
    }
}

/// Measures workflow schema validation.
pub struct WorkflowValidationBenchmark {
    iterations: usize,
}

impl WorkflowValidationBenchmark {
    /// The standard budget for this target.
    pub fn new() -> (r: WorkflowValidationBenchmark)
        ensures
            r.spec_iterations() == 1000,
    {
        WorkflowValidationBenchmark { iterations: 1000 }
    }

    /// The iteration budget.
    pub closed spec fn spec_iterations(self) -> usize {
        self.iterations
    }

    /// The iteration budget.
    pub fn iterations(&self) -> (r: usize)
        ensures
            r == self.spec_iterations(),
    {
        self.iterations
    }
}

/// Measures parallel step coordination overhead.
pub struct ParallelStepCoordinationBenchmark {
    iterations: usize,
}

impl ParallelStepCoordinationBenchmark {
    /// The standard budget for this target.
    pub fn new() -> (r: ParallelStepCoordinationBenchmark)
        ensures
            r.spec_iterations() == 100,
    {
        ParallelStepCoordinationBenchmark { iterations: 100 }
    }

    /// The iteration budget.
    pub closed spec fn spec_iterations(self) -> usize {
        self.iterations
    }

    /// The iteration budget.
    pub fn iterations(&self) -> (r: usize)
        ensures
            r == self.spec_iterations(),
    {
        self.iterations
    }
}

/// Measures template rendering over the execution context.
pub struct ContextTemplateRenderingBenchmark {
    iterations: usize,
}

impl ContextTemplateRenderingBenchmark {
    /// The standard budget for this target.
    pub fn new() -> (r: ContextTemplateRenderingBenchmark)
        ensures
            r.spec_iterations() == 1000,
    {
        ContextTemplateRenderingBenchmark { iterations: 1000 }
    }

    /// The iteration budget.
    pub closed spec fn spec_iterations(self) -> usize {
        self.iterations
    }

    /// The iteration budget.
    pub fn iterations(&self) -> (r: usize)
        ensures
            r == self.spec_iterations(),
    {
        self.iterations
    }
}

/// Measures provider-registry lookups across many providers.
pub struct MultiModelRoutingBenchmark {
    iterations: usize,
}

impl MultiModelRoutingBenchmark {
    /// The standard budget for this target.
    pub fn new() -> (r: MultiModelRoutingBenchmark)
        ensures
            r.spec_iterations() == 10000,
    {
        MultiModelRoutingBenchmark { iterations: 10000 }
    }

    /// The iteration budget.
    pub closed spec fn spec_iterations(self) -> usize {
        self.iterations
    }

    /// The iteration budget.
    pub fn iterations(&self) -> (r: usize)
        ensures
            r == self.spec_iterations(),
    {
        self.iterations
    }
}

/// Measures the retry and feedback loop.
pub struct EvaluationFeedbackLoopBenchmark {
    iterations: usize,
}

impl EvaluationFeedbackLoopBenchmark {
    /// The standard budget for this target.
    pub fn new() -> (r: EvaluationFeedbackLoopBenchmark)
        ensures
            r.spec_iterations() == 100,
    {
        EvaluationFeedbackLoopBenchmark { iterations: 100 }
    }

    /// The iteration budget.
    pub closed spec fn spec_iterations(self) -> usize {
        self.iterations
    }

    /// The iteration budget.
    pub fn iterations(&self) -> (r: usize)
        ensures
            r == self.spec_iterations(),
    {
        self.iterations
    }
}

} // verus!
