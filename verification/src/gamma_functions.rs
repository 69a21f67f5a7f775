//! The identity gamma curve.
use vstd::prelude::*;

verus! {

/// The gamma curve that leaves every value as it is.
pub struct GammaNone;

impl GammaNone {
    pub fn new() -> (r: Self) {
        GammaNone
    }
}

} // verus!
