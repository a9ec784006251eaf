//! The error taxonomy of the compiler.
//!
//! Every stage returns a structured outcome that callers can only forward;
//! the facade publishes nothing when any stage fails.

use vstd::prelude::*;

verus! {

/// Why a build aborted.
#[derive(Clone, Copy, Debug, PartialEq, Eq, Structural)]
pub enum GeometryError {
    /// A linedef references a vertex index that does not exist.
    InvalidGeometry,
    /// Recursion passed the fixed depth bound; the partition heuristic
    /// never separated a pathological input.
    DepthExceeded,
    /// The splitter found no unique intersection for a segment already
    /// classified spanning: an internal invariant violation.
    SplitFailure,
    /// Exact rational arithmetic left the 64-bit component range.
    Overflow,
}

impl GeometryError {
    /// A human-readable description of the failure.
    pub fn message(&self) -> (m: String)
        ensures
            m@ == self.message_spec(),
    {
        match self {
            GeometryError::InvalidGeometry => String::from_str(
                "linedef references an invalid vertex index",
            ),
            GeometryError::DepthExceeded => String::from_str("reached the BSP depth limit"),
            GeometryError::SplitFailure => String::from_str(
                "cannot split seg: no single intersection found",
            ),
            GeometryError::Overflow => String::from_str(
                "exact coordinate arithmetic left the representable range",
            ),
        }
    }

    /// The text `message` returns.
    pub open spec fn message_spec(self) -> Seq<char> {
        match self {
            GeometryError::InvalidGeometry => "linedef references an invalid vertex index"@,
            GeometryError::DepthExceeded => "reached the BSP depth limit"@,
            GeometryError::SplitFailure => "cannot split seg: no single intersection found"@,
            GeometryError::Overflow => "exact coordinate arithmetic left the representable range"@,
        }
    }
}

} // verus!
