use vstd::prelude::*;

verus! {

/// Failure conditions of the pipeline. Every error is terminal for the call
/// that raised it; nothing is retried or silently recovered.
#[derive(Clone, Copy, Debug, PartialEq, Eq, Structural)]
pub enum PipelineError {
    /// A construction parameter is unusable before any computation starts:
    /// a grid dimension of zero, a kernel weight table whose length does not
    /// match its radius, or a block side of zero.
    InvalidParameter,
    /// A lookup was requested outside the configured bounds: a kernel offset
    /// beyond the radius, or a grid cell outside the grid. This reports a
    /// caller bug rather than a data condition.
    OutOfRange,
    /// Two grids that must share dimensions disagree.
    DimensionMismatch,
}

} // verus!
