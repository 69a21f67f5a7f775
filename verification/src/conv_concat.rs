//! Decisions of the converter that hands on the path of one source and then
//! that of another.
use crate::basics::{is_stop, PATH_CMD_STOP};
use vstd::prelude::*;

verus! {

/// Which source the converter reads: 0 the first, 1 the second, 2 none.
pub struct ConcatState {
    pub status: i32,
}

impl ConcatState {
    /// A converter that gives nothing until it is rewound.
    pub fn new() -> (r: Self)
        ensures
            r.status == 2,
    {
        ConcatState { status: 2 }
    }

    /// Back to the first source.
    pub fn rewind(&mut self)
        ensures
            final(self).status == 0,
    {
        self.status = 0;
    }

    /// The source to read next, if any.
    pub fn current(&self) -> (r: Option<u32>)
        ensures
            r == (if self.status == 0 {
                Some(0u32)
            } else if self.status == 1 {
                Some(1u32)
            } else {
                None
            }),
    {
        if self.status == 0 {
            Some(0)
        } else if self.status == 1 {
            Some(1)
        } else {
            None
        }
    }

    /// The current source gave `cmd`: returns whether it is handed on; at
    /// its `stop` the converter moves on to the next source.
    pub fn accept(&mut self, cmd: u32) -> (r: bool)
        requires
            old(self).status == 0 || old(self).status == 1,
        ensures
            r == (cmd != PATH_CMD_STOP),
            r ==> final(self).status == old(self).status,
            !r ==> final(self).status == old(self).status + 1,
    {
        if is_stop(cmd) {
            self.status = self.status + 1;
            false
        } else {
            true
        }
    }
}

} // verus!
