//! The ways a curve can be approximated by line segments.
use vstd::prelude::*;

verus! {

/// Incremental stepping or recursive subdivision.
#[derive(Clone, Copy, PartialEq, Eq, Structural)]
pub enum CurveApproximationMethod {
    CurveInc,
    CurveDiv,
}

impl CurveApproximationMethod {
    pub open spec fn spec_value(self) -> u32 {
        match self {
            CurveApproximationMethod::CurveInc => 0,
            CurveApproximationMethod::CurveDiv => 1,
        }
    }

    /// The method's number, as the C interface counts them.
    pub fn value(&self) -> (r: u32)
        ensures
            r == self.spec_value(),
    {
        match self {
            CurveApproximationMethod::CurveInc => 0,
            CurveApproximationMethod::CurveDiv => 1,
        }
    }
}

} // verus!
