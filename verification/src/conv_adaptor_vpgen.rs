//! Decisions of the adaptor that feeds the paths of a vertex source through a
//! polygon generator (a clipper or a segmentator): which vertices the
//! generator receives, when a polygon is closed back to its start, and which
//! commands are handed on.
//!
//! The state machine is generic in the coordinate type `C`. Its caller owns
//! the source and the generator, performs each [`VpgenStep`], and hands back
//! what the source gave through [`VpgenAdaptorState::accept`].
use crate::basics::{
    lemma_close_flag_bits,
    end_poly_spec, is_closed, is_end_poly, is_move_to, is_stop, is_vertex, PATH_CMD_END_POLY,
    PATH_CMD_MOVE_TO, PATH_CMD_STOP, PATH_FLAGS_CLOSE,
};
use vstd::prelude::*;

verus! {

/// What the caller does next.
pub enum VpgenStep<C> {
    /// Return this command with these coordinates.
    Emit(u32, C, C),
    /// Return this command with the coordinates the generator last gave.
    Return(u32),
    /// Call the generator's `move_to`, then ask the generator again.
    MoveTo(C, C),
    /// Call the generator's `line_to`, then ask the generator again.
    LineTo(C, C),
    /// Read the next command of the source and pass it to `accept`.
    Pull,
    /// Ask the generator again.
    Again,
}

/// The state of the adaptor between two commands.
pub struct VpgenAdaptorState<C> {
    /// The coordinates given with a held end of polygon, and after a rewind.
    pub origin: C,
    /// The first vertex of the current polygon.
    pub start_x: C,
    pub start_y: C,
    /// An end-of-polygon command held back until the generator is empty.
    pub poly_flags: u32,
    /// The vertices of the current polygon given to the generator; -1 when a
    /// held-back `move_to` to the start is due, -2 when the closed path is
    /// done.
    pub vertices: i32,
}

/// A closing end of polygon.
pub open spec fn vpgen_closing_end_poly() -> u32 {
    0x4Fu32
}

impl<C: Copy> VpgenAdaptorState<C> {
    pub open spec fn wf(&self) -> bool {
        self.vertices >= -2
    }

    /// What happens when the generator has no more output (it gave `stop`).
    pub open spec fn generator_empty_spec(self, auto_unclose: bool) -> (Self, VpgenStep<C>) {
        if self.poly_flags != 0 && !auto_unclose {
            (
                VpgenAdaptorState { poly_flags: 0, ..self },
                VpgenStep::Emit(self.poly_flags, self.origin, self.origin),
            )
        } else if self.vertices < 0 {
            if self.vertices < -1 {
                (VpgenAdaptorState { vertices: 0, ..self }, VpgenStep::Return(PATH_CMD_STOP))
            } else {
                (
                    VpgenAdaptorState { vertices: 1, ..self },
                    VpgenStep::MoveTo(self.start_x, self.start_y),
                )
            }
        } else {
            (self, VpgenStep::Pull)
        }
    }

    /// What happens with the command `cmd` that the source gave at `(x, y)`.
    pub open spec fn accept_spec(self, cmd: u32, x: C, y: C, auto_close: bool) -> (
        Self,
        VpgenStep<C>,
    ) {
        if PATH_CMD_MOVE_TO <= cmd < PATH_CMD_END_POLY {
            if cmd == PATH_CMD_MOVE_TO {
                if auto_close && self.vertices > 2 {
                    (
                        VpgenAdaptorState {
                            poly_flags: vpgen_closing_end_poly(),
                            start_x: x,
                            start_y: y,
                            vertices: -1i32,
                            ..self
                        },
                        VpgenStep::LineTo(self.start_x, self.start_y),
                    )
                } else {
                    (
                        VpgenAdaptorState { start_x: x, start_y: y, vertices: 1, ..self },
                        VpgenStep::MoveTo(x, y),
                    )
                }
            } else {
                (
                    VpgenAdaptorState { vertices: (self.vertices + 1) as i32, ..self },
                    VpgenStep::LineTo(x, y),
                )
            }
        } else if end_poly_spec(cmd) {
            if cmd & PATH_FLAGS_CLOSE != 0 || auto_close {
                let flags = if auto_close {
                    cmd | PATH_FLAGS_CLOSE
                } else {
                    cmd
                };
                (
                    VpgenAdaptorState { poly_flags: flags, vertices: 0, ..self },
                    if self.vertices > 2 {
                        VpgenStep::LineTo(self.start_x, self.start_y)
                    } else {
                        VpgenStep::Again
                    },
                )
            } else {
                (VpgenAdaptorState { poly_flags: cmd, ..self }, VpgenStep::Again)
            }
        } else if auto_close && self.vertices > 2 {
            (
                VpgenAdaptorState { poly_flags: vpgen_closing_end_poly(), vertices: -2i32, ..self },
                VpgenStep::LineTo(self.start_x, self.start_y),
            )
        } else {
            (self, VpgenStep::Return(cmd))
        }
    }

    /// An adaptor at the start of a path; `origin` is the position given
    /// with a held end of polygon.
    pub fn new(origin: C) -> (r: Self)
        ensures
            r == (VpgenAdaptorState {
                origin,
                start_x: origin,
                start_y: origin,
                poly_flags: 0,
                vertices: 0,
            }),
            r.wf(),
    {
        VpgenAdaptorState { origin, start_x: origin, start_y: origin, poly_flags: 0, vertices: 0 }
    }

    /// Back to the start of a path, as when the source is rewound.
    pub fn rewind(&mut self)
        ensures
            *final(self) == (VpgenAdaptorState {
                start_x: old(self).origin,
                start_y: old(self).origin,
                poly_flags: 0,
                vertices: 0,
                ..*old(self)
            }),
            final(self).wf(),
    {
        self.start_x = self.origin;
        self.start_y = self.origin;
        self.poly_flags = 0;
        self.vertices = 0;
    }

    /// The generator gave `stop`: hand on a held end of polygon (unless the
    /// generator reopens polygons itself), finish a closed path, or read the
    /// source.
    pub fn generator_empty(&mut self, auto_unclose: bool) -> (r: VpgenStep<C>)
        ensures
            (*final(self), r) == old(self).generator_empty_spec(auto_unclose),
            old(self).wf() ==> final(self).wf(),
    {
        if self.poly_flags != 0 && !auto_unclose {
            let flags = self.poly_flags;
            self.poly_flags = 0;
            return VpgenStep::Emit(flags, self.origin, self.origin);
        }
        if self.vertices < 0 {
            if self.vertices < -1 {
                self.vertices = 0;
                return VpgenStep::Return(PATH_CMD_STOP);
            }
            self.vertices = 1;
            return VpgenStep::MoveTo(self.start_x, self.start_y);
        }
        VpgenStep::Pull
    }

    /// Takes the command `cmd` that the source gave at `(x, y)`;
    /// `auto_close` tells whether the generator closes polygons itself.
    pub fn accept(&mut self, cmd: u32, x: C, y: C, auto_close: bool) -> (r: VpgenStep<C>)
        requires
            old(self).vertices < i32::MAX,
        ensures
            (*final(self), r) == old(self).accept_spec(cmd, x, y, auto_close),
            old(self).wf() ==> final(self).wf(),
    {
        if is_vertex(cmd) {
            if is_move_to(cmd) {
                if auto_close && self.vertices > 2 {
                    let r = VpgenStep::LineTo(self.start_x, self.start_y);
                    self.poly_flags = PATH_CMD_END_POLY | PATH_FLAGS_CLOSE;
                    proof {
                        lemma_close_flag_bits(0);
                    }
                    self.start_x = x;
                    self.start_y = y;
                    self.vertices = -1;
                    return r;
                }
                self.start_x = x;
                self.start_y = y;
                self.vertices = 1;
                return VpgenStep::MoveTo(x, y);
            }
            self.vertices = self.vertices + 1;
            return VpgenStep::LineTo(x, y);
        }
        if is_end_poly(cmd) {
            self.poly_flags = cmd;
            if is_closed(cmd) || auto_close {
                if auto_close {
                    self.poly_flags = self.poly_flags | PATH_FLAGS_CLOSE;
                }
                let r = if self.vertices > 2 {
                    VpgenStep::LineTo(self.start_x, self.start_y)
                } else {
                    VpgenStep::Again
                };
                self.vertices = 0;
                return r;
            }
            return VpgenStep::Again;
        }
        if auto_close && self.vertices > 2 {
            let r = VpgenStep::LineTo(self.start_x, self.start_y);
            self.poly_flags = PATH_CMD_END_POLY | PATH_FLAGS_CLOSE;
            proof {
                lemma_close_flag_bits(0);
            }
            self.vertices = -2;
            return r;
        }
        VpgenStep::Return(cmd)
    }
}

/// With a generator that closes polygons itself, a polygon of more than two
/// vertices is drawn back to its start before the next `move_to`, end of
/// polygon or end of path of the source, and a closing end of polygon is
/// held for it.
pub proof fn lemma_auto_close_returns_to_start<C: Copy>(
    s: VpgenAdaptorState<C>,
    cmd: u32,
    x: C,
    y: C,
)
    requires
        s.wf(),
        s.vertices > 2,
        !(PATH_CMD_MOVE_TO < cmd < PATH_CMD_END_POLY),
    ensures
        ({
            let (t, r) = s.accept_spec(cmd, x, y, true);
            &&& r == VpgenStep::LineTo(s.start_x, s.start_y)
            &&& t.poly_flags & PATH_FLAGS_CLOSE != 0
            &&& end_poly_spec(t.poly_flags)
        }),
{
    lemma_close_flag_bits(cmd);
}

/// A held end of polygon is handed on exactly once, at the origin, as soon as
/// the generator is empty, unless the generator reopens polygons itself.
pub proof fn lemma_held_end_poly_emitted_once<C: Copy>(s: VpgenAdaptorState<C>)
    requires
        s.poly_flags != 0,
    ensures
        ({
            let (t, r) = s.generator_empty_spec(false);
            &&& r == VpgenStep::Emit(s.poly_flags, s.origin, s.origin)
            &&& t.poly_flags == 0
            &&& t.generator_empty_spec(false).1 != r
        }),
{
}

} // verus!
