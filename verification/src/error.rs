//! The fatal error of the planner.

use vstd::prelude::*;

verus! {

/// A malformed configuration met at evaluation time: a condition that
/// compares a stored value against an operand of another variant, an
/// arithmetic effect aimed at a property that holds no number, or a
/// toggle aimed at one that holds no boolean. It is surfaced to the
/// caller and never silently recovered; in particular it is never
/// masked as a mere decomposition failure.
#[derive(Debug, Clone, Copy, PartialEq, Eq, Structural)]
pub struct ConfigurationError;

} // verus!
