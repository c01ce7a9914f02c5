//! The failures of a crank.

use vstd::prelude::*;

verus! {

/// Why an operation was refused. Every failure is local to one invocation.
#[derive(Clone, Copy, Debug, PartialEq, Eq, Structural)]
pub enum ContractError {
    /// The caller is not the identity that the operation is reserved for.
    Unauthorized,
    /// A balance was supplied in another denomination than the action's.
    InvalidDenom,
    /// A positive balance was to be split over targets whose weights sum to zero.
    UndefinedSplit,
    /// No configuration has been stored yet.
    NotFound,
}

} // verus!
