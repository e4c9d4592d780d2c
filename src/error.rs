use vstd::prelude::*;

verus! {

/// A parameter vector whose length does not fit the model it is written to.
#[derive(Debug, Clone, Copy, PartialEq, Eq, Structural)]
pub enum ParamError {
    ParameterLengthMismatch { expected: usize, found: usize },
}

/// Failures of the local and the global fit.
#[derive(Debug, Clone, Copy, PartialEq, Eq, Structural)]
pub enum FitError {
    /// One local optimisation did not converge; the sample is discarded.
    DidNotConverge,
    /// Not one of the random starts converged.
    NoConvergentFit,
}

/// Failures while cutting the input series.
#[derive(Debug, Clone, Copy, PartialEq, Eq, Structural)]
pub enum DataError {
    /// Time and data series of different lengths.
    DimensionMismatch { time: usize, data: usize },
    /// A stride other than 1 was requested.
    UnsupportedSlice { strides: usize },
    /// The offset is negative or lies past the end of the series.
    OffsetOutOfRange { offset: i64, len: usize },
}

} // verus!
