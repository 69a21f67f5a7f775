//! The shapes of line ends and line joins that a stroke can take.
use vstd::prelude::*;

verus! {

/// How an open line ends.
#[derive(Clone, Copy, PartialEq, Eq, Structural)]
pub enum LineCap {
    Butt,
    Square,
    Round,
}

/// How two segments of a line meet.
#[derive(Clone, Copy, PartialEq, Eq, Structural)]
pub enum LineJoin {
    Miter,
    MiterRevert,
    Round,
    Bevel,
    MiterRound,
}

impl LineJoin {
    pub open spec fn spec_value(self) -> u32 {
        match self {
            LineJoin::Miter => 0,
            LineJoin::MiterRevert => 1,
            LineJoin::Round => 2,
            LineJoin::Bevel => 3,
            LineJoin::MiterRound => 4,
        }
    }

    /// The join's number, as the C interface counts them.
    pub fn value(&self) -> (r: u32)
        ensures
            r == self.spec_value(),
    {
        match self {
            LineJoin::Miter => 0,
            LineJoin::MiterRevert => 1,
            LineJoin::Round => 2,
            LineJoin::Bevel => 3,
            LineJoin::MiterRound => 4,
        }
    }
}

/// How the inner side of a sharp turn is drawn.
#[derive(Clone, Copy, PartialEq, Eq, Structural)]
pub enum InnerJoin {
    Bevel,
    Miter,
    Jag,
    Round,
}

/// Distinct joins have distinct numbers.
pub proof fn lemma_line_join_value_injective(a: LineJoin, b: LineJoin)
    ensures
        a.spec_value() == b.spec_value() <==> a == b,
{
}

} // verus!
