use vstd::prelude::*;

verus! {

/// Why a symbol produced no statistics in a cycle.
#[derive(Clone, Copy, Debug, PartialEq, Eq, Structural)]
pub enum FailureReason {
    /// The provider answered, and had no observation in the requested range.
    NoData,
    /// The provider could not be reached, or its answer could not be read.
    ProviderFailure,
    /// The series is too short for the statistics that were asked for.
    InsufficientHistory,
}

} // verus!
