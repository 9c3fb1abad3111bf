//! The kinds of parameters and the priorities of nodes.

use vstd::prelude::*;

verus! {

/// Indicate the type of parameter, so that the correct class and node
/// structures are created.
#[derive(Clone, Copy, Debug, PartialEq, Eq, Structural)]
pub enum ParameterKind {
    /// This parameter is a flag parameter.
    Flag,
    /// This parameter is a named parameter.
    Named,
    /// This parameter is a simple parameter.
    Simple,
}

/// Minimum priority.
pub const PRIORITY_MINIMUM: i32 = -10000;

/// The default priority for a parameter.
pub const PRIORITY_PARAMETER: i32 = -10;

/// The default priority.
pub const PRIORITY_DEFAULT: i32 = 0;

} // verus!
