//! Decisions of the converter that closes every polygon of a path: it hands
//! on the commands of its source, turns each end of polygon into a closing
//! one, and inserts a closing end of polygon before a `move_to` or the final
//! `stop` that follows drawing commands.
//!
//! The state machine is generic in the coordinate type `C`; the caller reads
//! the source, passes each command to [`ClosePolygonState::accept`], and asks
//! [`ClosePolygonState::next`] for buffered output.
use crate::basics::{
    lemma_close_flag_bits,
    end_poly_spec, is_end_poly, is_move_to, is_stop, is_vertex, PATH_CMD_END_POLY,
    PATH_CMD_MOVE_TO, PATH_CMD_STOP, PATH_FLAGS_CLOSE,
};
use vstd::prelude::*;

verus! {

/// What the converter produces when asked for its next command.
pub enum ClosePolygonStep<C> {
    /// A buffered command and its coordinates.
    Emit(u32, C, C),
    /// Nothing is buffered: read the source and hand its command to `accept`.
    Pull,
}

/// The state of the converter between two commands.
pub struct ClosePolygonState<C> {
    /// The coordinates given with an inserted end of polygon.
    pub origin: C,
    /// The command buffered after an inserted end of polygon, and its
    /// coordinates.
    pub cmd1: u32,
    pub x1: C,
    pub y1: C,
    /// 0 when the inserted end of polygon is next, 1 when `cmd1` is next, 2
    /// when nothing is buffered.
    pub vertex: u32,
    /// Drawing commands were handed on since the last `move_to`.
    pub line_to: bool,
}

/// A closing end of polygon.
pub open spec fn closing_end_poly() -> u32 {
    0x4Fu32
}

impl<C: Copy> ClosePolygonState<C> {
    /// The buffer holds only what the converter itself can put there.
    pub open spec fn wf(&self) -> bool {
        &&& self.vertex <= 2
        &&& self.vertex < 2 ==> !self.line_to
        &&& self.vertex <= 1 ==> (self.cmd1 == PATH_CMD_STOP || self.cmd1 == PATH_CMD_MOVE_TO)
    }

    /// The state after the source gave `cmd` at `(x, y)`, and the command
    /// handed on at once, if any.
    pub open spec fn accept_spec(self, cmd: u32, x: C, y: C) -> (Self, Option<u32>) {
        if end_poly_spec(cmd) {
            (self, Some(cmd | PATH_FLAGS_CLOSE))
        } else if cmd == PATH_CMD_STOP {
            if self.line_to {
                (ClosePolygonState { cmd1: PATH_CMD_STOP, vertex: 0, line_to: false, ..self }, None)
            } else {
                (self, Some(cmd))
            }
        } else if cmd == PATH_CMD_MOVE_TO {
            if self.line_to {
                (
                    ClosePolygonState { cmd1: cmd, x1: x, y1: y, vertex: 0, line_to: false, ..self },
                    None,
                )
            } else {
                (self, Some(cmd))
            }
        } else if PATH_CMD_MOVE_TO <= cmd < PATH_CMD_END_POLY {
            (ClosePolygonState { line_to: true, ..self }, Some(cmd))
        } else {
            (self, None)
        }
    }

    /// A converter with nothing buffered; `origin` is the position given with
    /// an inserted end of polygon.
    pub fn new(origin: C) -> (r: Self)
        ensures
            r == (ClosePolygonState {
                origin,
                cmd1: 0,
                x1: origin,
                y1: origin,
                vertex: 2,
                line_to: false,
            }),
            r.wf(),
    {
        ClosePolygonState { origin, cmd1: 0, x1: origin, y1: origin, vertex: 2, line_to: false }
    }

    /// Forgets buffered output and the open polygon, as when the source is
    /// rewound.
    pub fn rewind(&mut self)
        ensures
            *final(self) == (ClosePolygonState { vertex: 2, line_to: false, ..*old(self) }),
            final(self).wf(),
    {
        self.vertex = 2;
        self.line_to = false;
    }

    /// The next buffered command, or `Pull` when nothing is buffered.
    pub fn next(&mut self) -> (r: ClosePolygonStep<C>)
        ensures
            old(self).vertex == 0 ==> r == ClosePolygonStep::Emit(
                closing_end_poly(),
                old(self).origin,
                old(self).origin,
            ) && *final(self) == (ClosePolygonState { vertex: 1, ..*old(self) }),
            old(self).vertex == 1 ==> r == ClosePolygonStep::Emit(
                old(self).cmd1,
                old(self).x1,
                old(self).y1,
            ) && *final(self) == (ClosePolygonState { vertex: 2, ..*old(self) }),
            old(self).vertex >= 2 ==> r == ClosePolygonStep::<C>::Pull && *final(self) == *old(self),
            old(self).wf() ==> final(self).wf(),
    {
        if self.vertex == 0 {
            proof {
                lemma_close_flag_bits(0);
            }
            self.vertex = 1;
            ClosePolygonStep::Emit(PATH_CMD_END_POLY | PATH_FLAGS_CLOSE, self.origin, self.origin)
        } else if self.vertex == 1 {
            self.vertex = 2;
            ClosePolygonStep::Emit(self.cmd1, self.x1, self.y1)
        } else {
            ClosePolygonStep::Pull
        }
    }

    /// Takes the command `cmd` that the source gave at `(x, y)`: returns the
    /// command to hand on with those coordinates, or `None` when the caller
    /// must ask `next` again (a closing end of polygon was buffered, or the
    /// command is not one of a path and is dropped).
    pub fn accept(&mut self, cmd: u32, x: C, y: C) -> (r: Option<u32>)
        ensures
            (*final(self), r) == old(self).accept_spec(cmd, x, y),
            old(self).wf() && old(self).vertex == 2 ==> final(self).wf(),
    {
        if is_end_poly(cmd) {
            return Some(cmd | PATH_FLAGS_CLOSE);
        }
        if is_stop(cmd) {
            if self.line_to {
                self.cmd1 = PATH_CMD_STOP;
                self.vertex = 0;
                self.line_to = false;
                return None;
            }
            return Some(cmd);
        }
        if is_move_to(cmd) {
            if self.line_to {
                self.cmd1 = cmd;
                self.x1 = x;
                self.y1 = y;
                self.vertex = 0;
                self.line_to = false;
                return None;
            }
            return Some(cmd);
        }
        if is_vertex(cmd) {
            self.line_to = true;
            return Some(cmd);
        }
        None
    }
}

/// Every end of polygon that the converter hands on is a closing one.
pub proof fn lemma_end_poly_closed<C: Copy>(s: ClosePolygonState<C>, cmd: u32, x: C, y: C)
    requires
        s.wf(),
    ensures
        ({
            let (t, r) = s.accept_spec(cmd, x, y);
            r is Some && end_poly_spec(r->0) ==> r->0 & PATH_FLAGS_CLOSE != 0
        }),
        s.vertex == 1 ==> !end_poly_spec(s.cmd1),
        closing_end_poly() & PATH_FLAGS_CLOSE != 0,
{
    lemma_close_flag_bits(cmd);
}

/// After drawing commands, neither a `move_to` nor a `stop` of the source is
/// handed on directly: a closing end of polygon comes first, and the command
/// itself follows from the buffer.
pub proof fn lemma_open_polygon_closed_first<C: Copy>(
    s: ClosePolygonState<C>,
    cmd: u32,
    x: C,
    y: C,
)
    requires
        s.wf(),
        s.line_to,
        cmd == PATH_CMD_STOP || cmd == PATH_CMD_MOVE_TO,
    ensures
        ({
            let (t, r) = s.accept_spec(cmd, x, y);
            &&& r is None
            &&& t.wf()
            &&& t.vertex == 0
            &&& t.cmd1 == cmd
            &&& cmd == PATH_CMD_MOVE_TO ==> t.x1 == x && t.y1 == y
        }),
{
    lemma_close_flag_bits(cmd);
}

/// No command below the end of polygon carries the end-of-polygon bits.
proof fn lemma_below_end_poly(c: u32)
    requires
        c < PATH_CMD_END_POLY,
    ensures
        !end_poly_spec(c),
{
    assert(c < 15u32 ==> c & 0x0Fu32 != 0x0Fu32) by (bit_vector);
}

/// Every drawing command (any vertex command after a `move_to`: a line, a
/// conic or cubic curve, or any other) is handed on as it is and marks the
/// polygon as drawn, leaving the buffer as it was.
pub proof fn lemma_drawing_marks_polygon<C: Copy>(s: ClosePolygonState<C>, cmd: u32, x: C, y: C)
    requires
        PATH_CMD_MOVE_TO < cmd < PATH_CMD_END_POLY,
    ensures
        s.accept_spec(cmd, x, y).1 == Some(cmd),
        s.accept_spec(cmd, x, y).0.line_to,
        s.accept_spec(cmd, x, y).0.vertex == s.vertex,
{
    lemma_below_end_poly(cmd);
}

/// A polygon drawn with any drawing command is closed before the `stop` or
/// `move_to` that follows: that command is held back (`accept` answers
/// `None`), and `next` then gives a closing end of polygon at the origin,
/// then the held command at its own coordinates.
pub proof fn lemma_drawn_polygon_is_closed<C: Copy>(
    s: ClosePolygonState<C>,
    draw: u32,
    dx: C,
    dy: C,
    cmd: u32,
    x: C,
    y: C,
)
    requires
        PATH_CMD_MOVE_TO < draw < PATH_CMD_END_POLY,
        cmd == PATH_CMD_STOP || cmd == PATH_CMD_MOVE_TO,
    ensures
        ({
            let s1 = s.accept_spec(draw, dx, dy).0;
            let (s2, r) = s1.accept_spec(cmd, x, y);
            &&& r is None
            &&& s2.vertex == 0
            &&& s2.cmd1 == cmd
            &&& !s2.line_to
            &&& s2.origin == s.origin
            &&& cmd == PATH_CMD_MOVE_TO ==> s2.x1 == x && s2.y1 == y
        }),
{
    lemma_below_end_poly(draw);
    lemma_below_end_poly(cmd);
}

} // verus!
