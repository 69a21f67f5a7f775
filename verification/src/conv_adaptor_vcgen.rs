//! Decisions of the adaptor that feeds each path of a vertex source through a
//! vertex generator (a stroker, a contourer, a smoother): how a path is
//! collected into the generator, and when the generator's output is handed
//! on. Also the markers that mark nothing.
//!
//! The state machine is generic in the coordinate type `C`. Its caller owns
//! the source, the generator and the markers, and performs each
//! [`VcgenStep`] and [`AccumulateStep`].
use crate::basics::{
    end_poly_spec, is_end_poly, is_move_to, is_stop, is_vertex, PATH_CMD_END_POLY,
    PATH_CMD_MOVE_TO, PATH_CMD_STOP,
};
use crate::Markers;
use vstd::prelude::*;

verus! {

/// The markers that a vertex generator uses when it has none: they keep
/// nothing and give nothing.
pub struct NullMarkers;

impl NullMarkers {
    pub fn new() -> (r: Self) {
        NullMarkers
    }

    pub fn remove_all(&mut self) {
    }

    pub fn add_vertex<C>(&mut self, _x: C, _y: C, _cmd: u32) {
    }

    pub fn rewind(&mut self, _path_id: u32) {
    }

    /// There are no markers: the only command is `stop`, and the
    /// coordinates are left as they are.
    pub fn vertex<C>(&mut self, x: &mut C, y: &mut C) -> (r: u32)
        ensures
            r == PATH_CMD_STOP,
            *final(x) == *old(x),
            *final(y) == *old(y),
    {
        PATH_CMD_STOP
    }
}

impl Markers for NullMarkers {

}

/// The phase of the adaptor.
#[derive(PartialEq, Eq, Structural, Clone, Copy)]
pub enum VcgenStatus {
    /// The first command of the source is still to be read.
    Initial,
    /// The next path is to be collected into the generator.
    Accumulate,
    /// The generator's output is being handed on.
    Generate,
}

/// What the caller does next.
pub enum VcgenStep<C> {
    /// Clear the markers, read the first command of the source and pass it
    /// to `started`.
    ReadStart,
    /// Return this command.
    Return(u32),
    /// Clear the generator, give it and the markers a `move_to` at this
    /// point, then read the source, passing each command to `accumulate`.
    BeginPath(C, C),
    /// Ask the generator for a command and pass it to `generated`.
    Generate,
}

/// What the caller does with one command of the source while collecting a
/// path.
pub enum AccumulateStep {
    /// Give the generator the vertex with this command and the markers the
    /// vertex as a `line_to`; go on reading the source.
    Add(u32),
    /// Give the generator the vertex with this command; the path is complete.
    AddLast(u32),
    /// The path is complete.
    Finish,
    /// Ignore the command; go on reading the source.
    Skip,
}

/// The state of the adaptor between two commands.
pub struct VcgenAdaptorState<C> {
    pub status: VcgenStatus,
    /// The last vertex command read from the source.
    pub last_cmd: u32,
    /// The `move_to` that begins the next path.
    pub start_x: C,
    pub start_y: C,
}

impl<C: Copy> VcgenAdaptorState<C> {
    /// What the adaptor does next in its current phase.
    pub open spec fn step_spec(self) -> VcgenStep<C> {
        match self.status {
            VcgenStatus::Initial => VcgenStep::ReadStart,
            VcgenStatus::Accumulate => if self.last_cmd == PATH_CMD_STOP {
                VcgenStep::Return(PATH_CMD_STOP)
            } else {
                VcgenStep::BeginPath(self.start_x, self.start_y)
            },
            VcgenStatus::Generate => VcgenStep::Generate,
        }
    }

    /// What happens with the command `cmd` that the source gave at `(x, y)`
    /// while a path is collected.
    pub open spec fn accumulate_spec(self, cmd: u32, x: C, y: C) -> (Self, AccumulateStep) {
        if PATH_CMD_MOVE_TO <= cmd < PATH_CMD_END_POLY {
            if cmd == PATH_CMD_MOVE_TO {
                (
                    VcgenAdaptorState {
                        status: VcgenStatus::Generate,
                        last_cmd: cmd,
                        start_x: x,
                        start_y: y,
                    },
                    AccumulateStep::Finish,
                )
            } else {
                (VcgenAdaptorState { last_cmd: cmd, ..self }, AccumulateStep::Add(cmd))
            }
        } else if cmd == PATH_CMD_STOP {
            (
                VcgenAdaptorState {
                    status: VcgenStatus::Generate,
                    last_cmd: PATH_CMD_STOP,
                    ..self
                },
                AccumulateStep::Finish,
            )
        } else if end_poly_spec(cmd) {
            (
                VcgenAdaptorState { status: VcgenStatus::Generate, ..self },
                AccumulateStep::AddLast(cmd),
            )
        } else {
            (self, AccumulateStep::Skip)
        }
    }

    /// An adaptor that has read nothing; `origin` is the start it reports
    /// before the first command.
    pub fn new(origin: C) -> (r: Self)
        ensures
            r == (VcgenAdaptorState {
                status: VcgenStatus::Initial,
                last_cmd: 0,
                start_x: origin,
                start_y: origin,
            }),
    {
        VcgenAdaptorState {
            status: VcgenStatus::Initial,
            last_cmd: 0,
            start_x: origin,
            start_y: origin,
        }
    }

    /// Back to the first command, as when the source is rewound.
    pub fn rewind(&mut self)
        ensures
            *final(self) == (VcgenAdaptorState { status: VcgenStatus::Initial, ..*old(self) }),
    {
        self.status = VcgenStatus::Initial;
    }

    /// What the caller does next.
    pub fn step(&self) -> (r: VcgenStep<C>)
        ensures
            r == self.step_spec(),
    {
        match self.status {
            VcgenStatus::Initial => VcgenStep::ReadStart,
            VcgenStatus::Accumulate => {
                if is_stop(self.last_cmd) {
                    VcgenStep::Return(PATH_CMD_STOP)
                } else {
                    VcgenStep::BeginPath(self.start_x, self.start_y)
                }
            },
            VcgenStatus::Generate => VcgenStep::Generate,
        }
    }

    /// The first command of the source was `cmd` at `(x, y)`.
    pub fn started(&mut self, cmd: u32, x: C, y: C)
        ensures
            *final(self) == (VcgenAdaptorState {
                status: VcgenStatus::Accumulate,
                last_cmd: cmd,
                start_x: x,
                start_y: y,
            }),
    {
        self.last_cmd = cmd;
        self.start_x = x;
        self.start_y = y;
        self.status = VcgenStatus::Accumulate;
    }

    /// Takes the command `cmd` that the source gave at `(x, y)` while a path
    /// is collected; when the path is complete, the generator's output comes
    /// next.
    pub fn accumulate(&mut self, cmd: u32, x: C, y: C) -> (r: AccumulateStep)
        ensures
            (*final(self), r) == old(self).accumulate_spec(cmd, x, y),
    {
        if is_vertex(cmd) {
            self.last_cmd = cmd;
            if is_move_to(cmd) {
                self.start_x = x;
                self.start_y = y;
                self.status = VcgenStatus::Generate;
                return AccumulateStep::Finish;
            }
            return AccumulateStep::Add(cmd);
        }
        if is_stop(cmd) {
            self.last_cmd = PATH_CMD_STOP;
            self.status = VcgenStatus::Generate;
            return AccumulateStep::Finish;
        }
        if is_end_poly(cmd) {
            self.status = VcgenStatus::Generate;
            return AccumulateStep::AddLast(cmd);
        }
        AccumulateStep::Skip
    }

    /// The generator gave `cmd`: returns whether it is handed on; at the
    /// generator's `stop` the next path is collected.
    pub fn generated(&mut self, cmd: u32) -> (r: bool)
        ensures
            r == (cmd != PATH_CMD_STOP),
            !r ==> *final(self) == (VcgenAdaptorState {
                status: VcgenStatus::Accumulate,
                ..*old(self)
            }),
            r ==> *final(self) == *old(self),
    {
        if is_stop(cmd) {
            self.status = VcgenStatus::Accumulate;
            false
        } else {
            true
        }
    }
}

/// The adaptor ends its output with `stop` exactly when the source has
/// ended: in the collecting phase after the source's `stop`.
pub proof fn lemma_stop_only_at_end<C: Copy>(s: VcgenAdaptorState<C>)
    ensures
        s.step_spec() == VcgenStep::<C>::Return(PATH_CMD_STOP) <==> (s.status
            == VcgenStatus::Accumulate && s.last_cmd == PATH_CMD_STOP),
        s.step_spec() is Return ==> s.step_spec() == VcgenStep::<C>::Return(PATH_CMD_STOP),
{
}

/// A `move_to` of the source completes the path being collected and begins
/// the next one at its own position; the source's `stop` completes the last
/// path and makes the adaptor end once the generator is empty.
pub proof fn lemma_path_boundaries<C: Copy>(s: VcgenAdaptorState<C>, x: C, y: C)
    ensures
        ({
            let (t, r) = s.accumulate_spec(PATH_CMD_MOVE_TO, x, y);
            &&& r == AccumulateStep::Finish
            &&& t.status == VcgenStatus::Generate
            &&& (VcgenAdaptorState { status: VcgenStatus::Accumulate, ..t }).step_spec()
                == VcgenStep::BeginPath(x, y)
        }),
        ({
            let (t, r) = s.accumulate_spec(PATH_CMD_STOP, x, y);
            &&& r == AccumulateStep::Finish
            &&& (VcgenAdaptorState { status: VcgenStatus::Accumulate, ..t }).step_spec()
                == VcgenStep::<C>::Return(PATH_CMD_STOP)
        }),
{
}

} // verus!
