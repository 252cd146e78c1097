//! Error kinds shared by every layer of the library.

use vstd::prelude::*;

verus! {

/// Why an operation could not produce its result.
///
/// A failed `verify` is not an error: it is the value `false`.
#[derive(Clone, Copy, Debug, PartialEq, Eq, Structural)]
pub enum CommitmentError {
    /// The requested backend is not registered with the factory.
    UnsupportedBackend,
    /// A value cannot be represented in the scheme's value type.
    EncodingError,
    /// The constraints that were emitted reject the assignment.
    ConstraintUnsatisfiable,
    /// An asset of the basket has no price among the oracle prices.
    MissingOraclePrice,
    /// The basket is worth less than the required share of the loan.
    InsufficientCollateral,
    /// The constraint builder could not take what was asked of it: it has
    /// no room left, or it was handed a cell that it never allocated.
    SynthesisError,
}

impl CommitmentError {
    /// A short name for the error, for messages.
    pub fn name(&self) -> (s: &'static str)
        ensures
            s@ == Self::spec_name(*self),
    {
        match self {
            CommitmentError::UnsupportedBackend => "unsupported backend",
            CommitmentError::EncodingError => "encoding error",
            CommitmentError::ConstraintUnsatisfiable => "constraint unsatisfiable",
            CommitmentError::MissingOraclePrice => "missing oracle price",
            CommitmentError::InsufficientCollateral => "insufficient collateral",
            CommitmentError::SynthesisError => "synthesis error",
        }
    }

    pub open spec fn spec_name(e: CommitmentError) -> Seq<char> {
        match e {
            CommitmentError::UnsupportedBackend => "unsupported backend"@,
            CommitmentError::EncodingError => "encoding error"@,
            CommitmentError::ConstraintUnsatisfiable => "constraint unsatisfiable"@,
            CommitmentError::MissingOraclePrice => "missing oracle price"@,
            CommitmentError::InsufficientCollateral => "insufficient collateral"@,
            CommitmentError::SynthesisError => "synthesis error"@,
        }
    }
}

} // verus!
