use vstd::prelude::*;

verus! {

/// Why an extraction produced no selection. Every kind is fatal for the
/// extraction it occurs in; running out of time is not among them.
#[derive(Clone, Copy, Debug, PartialEq, Eq, Structural)]
pub enum ExtractError {
    /// The solver rejected the facts or the rule program, or the problem
    /// holds a number that a fact cannot carry.
    EncodingFailure,
    /// The rule program could not be grounded against the facts.
    GroundingFailure,
    /// The solve session could not be opened, advanced or closed.
    SolveFailure,
    /// The search ended without a single model: no valid selection exists.
    NoModelFound,
    /// A reported model is not a legal selection of `sel/2` atoms, or the
    /// solver was driven out of step.
    InternalConsistencyFailure,
}

} // verus!
