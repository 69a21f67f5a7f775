//! The boolean operations on polygons.
use vstd::prelude::*;

verus! {

/// Union, intersection, symmetric difference and the two differences.
#[derive(PartialEq, Eq, Structural)]
pub enum GpcOp {
    Or,
    And,
    Xor,
    AMinusB,
    BMinusA,
}

} // verus!
