//! The command bookkeeping of a path: a list of vertices, each with its
//! coordinates of type `C` and its command, and the operations that start
//! and end polygons, read the commands back and turn a polygon round.
use crate::basics::{end_poly_spec, is_move_to, is_next_poly, is_vertex, PATH_CMD_END_POLY, PATH_CMD_MOVE_TO, PATH_CMD_LINE_TO, PATH_CMD_STOP, PATH_FLAGS_CLOSE};
use vstd::prelude::*;

verus! {

/// The vertices of a path in a vector.
pub struct VertexStlStorage<C> {
    m_vertices: Vec<(C, C, u32)>,
}

impl<C: Copy> VertexStlStorage<C> {
    /// The vertices: coordinates and command.
    pub closed spec fn vertices(&self) -> Seq<(C, C, u32)> {
        self.m_vertices@
    }

    pub fn new() -> (r: Self)
        ensures
            r.vertices() == Seq::<(C, C, u32)>::empty(),
    {
        VertexStlStorage { m_vertices: Vec::new() }
    }

    pub fn remove_all(&mut self)
        ensures
            final(self).vertices() == Seq::<(C, C, u32)>::empty(),
    {
        self.m_vertices.clear();
    }

    pub fn free_all(&mut self)
        ensures
            final(self).vertices() == Seq::<(C, C, u32)>::empty(),
    {
        self.m_vertices.clear();
    }

    pub fn add_vertex(&mut self, x: C, y: C, cmd: u32)
        ensures
            final(self).vertices() == old(self).vertices().push((x, y, cmd)),
    {
        self.m_vertices.push((x, y, cmd));
    }

    pub fn modify_vertex(&mut self, idx: u32, x: C, y: C)
        requires
            idx < old(self).vertices().len(),
        ensures
            final(self).vertices() == old(self).vertices().update(idx as int, (x, y, old(self).vertices()[idx as int].2)),
    {
        let c = self.m_vertices[idx as usize].2;
        self.m_vertices.set(idx as usize, (x, y, c));
    }

    pub fn modify_vertex_with_cmd(&mut self, idx: u32, x: C, y: C, cmd: u32)
        requires
            idx < old(self).vertices().len(),
        ensures
            final(self).vertices() == old(self).vertices().update(idx as int, (x, y, cmd)),
    {
        self.m_vertices.set(idx as usize, (x, y, cmd));
    }

    pub fn modify_command(&mut self, idx: u32, cmd: u32)
        requires
            idx < old(self).vertices().len(),
        ensures
            final(self).vertices() == old(self).vertices().update(
                idx as int,
                (old(self).vertices()[idx as int].0, old(self).vertices()[idx as int].1, cmd),
            ),
    {
        let (x, y, _) = self.m_vertices[idx as usize];
        self.m_vertices.set(idx as usize, (x, y, cmd));
    }

    pub fn swap_vertices(&mut self, v1: u32, v2: u32)
        requires
            v1 < old(self).vertices().len(),
            v2 < old(self).vertices().len(),
        ensures
            final(self).vertices() == old(self).vertices().update(v1 as int, old(self).vertices()[v2 as int]).update(
                v2 as int,
                old(self).vertices()[v1 as int],
            ),
    {
        let a = self.m_vertices[v1 as usize];
        let b = self.m_vertices[v2 as usize];
        self.m_vertices.set(v1 as usize, b);
        self.m_vertices.set(v2 as usize, a);
    }

    /// The command of the last vertex, or stop for an empty path.
    pub fn last_command(&self) -> (r: u32)
        ensures
            r == (if self.vertices().len() == 0 {
                PATH_CMD_STOP
            } else {
                self.vertices().last().2
            }),
    {
        if self.m_vertices.len() == 0 {
            return PATH_CMD_STOP;
        }
        self.m_vertices[self.m_vertices.len() - 1].2
    }

    pub fn total_vertices(&self) -> (r: u32)
        requires
            self.vertices().len() <= u32::MAX,
        ensures
            r == self.vertices().len(),
    {
        self.m_vertices.len() as u32
    }

    /// The coordinates of vertex `idx`, into `x` and `y`, and its command.
    pub fn vertex(&self, idx: u32, x: &mut C, y: &mut C) -> (r: u32)
        requires
            idx < self.vertices().len(),
        ensures
            *final(x) == self.vertices()[idx as int].0,
            *final(y) == self.vertices()[idx as int].1,
            r == self.vertices()[idx as int].2,
    {
        let v = self.m_vertices[idx as usize];
        *x = v.0;
        *y = v.1;
        v.2
    }

    /// The command of vertex `idx`, counted round the path.
    pub fn command(&self, idx: u32) -> (r: u32)
        requires
            self.vertices().len() > 0,
        ensures
            r == self.vertices()[(idx as int) % (self.vertices().len() as int)].2,
    {
        let len = self.m_vertices.len();
        self.m_vertices[idx as usize % len].2
    }
}

/// The first position from `i` on whose command is a vertex, or `len`.
pub open spec fn skip_non_vertices(cmds: Seq<u32>, i: int) -> int
    decreases cmds.len() - i,
{
    if i >= cmds.len() || (PATH_CMD_MOVE_TO <= cmds[i] < PATH_CMD_END_POLY) {
        i
    } else {
        skip_non_vertices(cmds, i + 1)
    }
}

/// The last of a run of move-tos starting at `i`.
pub open spec fn skip_moves(cmds: Seq<u32>, i: int) -> int
    decreases cmds.len() - i,
{
    if i + 1 < cmds.len() && cmds[i] == PATH_CMD_MOVE_TO && cmds[i + 1] == PATH_CMD_MOVE_TO {
        skip_moves(cmds, i + 1)
    } else {
        i
    }
}

/// The first position after `i` whose command starts a new polygon (a
/// stop, a move-to or an end of polygon), or `len`.
pub open spec fn next_poly_from(cmds: Seq<u32>, i: int) -> int
    decreases cmds.len() - i,
{
    if i >= cmds.len() || cmds[i] == PATH_CMD_STOP || cmds[i] == PATH_CMD_MOVE_TO || end_poly_spec(cmds[i]) {
        i
    } else {
        next_poly_from(cmds, i + 1)
    }
}

/// The commands of vertices `vs`.
pub open spec fn cmds_of<C>(vs: Seq<(C, C, u32)>) -> Seq<u32> {
    vs.map_values(|v: (C, C, u32)| v.2)
}

/// The polygon of vertices `s` to `e - 1` turned round: the vertices in
/// reverse order, each command moved one vertex back, the first command
/// going to what was the last vertex.
pub open spec fn inverted<C>(vs: Seq<(C, C, u32)>, s: int, e: int) -> Seq<(C, C, u32)> {
    Seq::new(
        vs.len(),
        |i: int|
            if s <= i < e {
                let j = s + e - 1 - i;
                (vs[j].0, vs[j].1, if j < e - 1 {
                    vs[j + 1].2
                } else {
                    vs[s].2
                })
            } else {
                vs[i]
            },
    )
}

/// A path: its vertices and the position of the next vertex to read.
pub struct PathBase<C> {
    m_vertices: VertexStlStorage<C>,
    m_iterator: u32,
}

impl<C: Copy> PathBase<C> {
    pub closed spec fn vertices(&self) -> Seq<(C, C, u32)> {
        self.m_vertices.vertices()
    }

    /// The position of the next vertex to read.
    pub closed spec fn iterator(&self) -> u32 {
        self.m_iterator
    }

    pub fn new() -> (r: Self)
        ensures
            r.vertices() == Seq::<(C, C, u32)>::empty(),
            r.iterator() == 0,
    {
        PathBase { m_vertices: VertexStlStorage::new(), m_iterator: 0 }
    }

    pub fn remove_all(&mut self)
        ensures
            final(self).vertices() == Seq::<(C, C, u32)>::empty(),
            final(self).iterator() == 0,
    {
        self.m_vertices.remove_all();
        self.m_iterator = 0;
    }

    pub fn free_all(&mut self)
        ensures
            final(self).vertices() == Seq::<(C, C, u32)>::empty(),
            final(self).iterator() == 0,
    {
        self.m_vertices.free_all();
        self.m_iterator = 0;
    }

    /// Ends the path so far with a stop, unless it is empty or already
    /// ends with one, and gives the position where the next path starts.
    pub fn start_new_path(&mut self, stop: C) -> (r: u32)
        requires
            old(self).vertices().len() < u32::MAX,
        ensures
            final(self).vertices() == (if old(self).vertices().len() > 0 && old(self).vertices().last().2 != PATH_CMD_STOP {
                old(self).vertices().push((stop, stop, PATH_CMD_STOP))
            } else {
                old(self).vertices()
            }),
            r == final(self).vertices().len(),
            final(self).iterator() == old(self).iterator(),
    {
        if self.m_vertices.last_command() != PATH_CMD_STOP {
            self.m_vertices.add_vertex(stop, stop, PATH_CMD_STOP);
        }
        self.m_vertices.total_vertices()
    }

    pub fn move_to(&mut self, x: C, y: C)
        ensures
            final(self).vertices() == old(self).vertices().push((x, y, PATH_CMD_MOVE_TO)),
            final(self).iterator() == old(self).iterator(),
    {
        self.m_vertices.add_vertex(x, y, PATH_CMD_MOVE_TO);
    }

    pub fn line_to(&mut self, x: C, y: C)
        ensures
            final(self).vertices() == old(self).vertices().push((x, y, PATH_CMD_LINE_TO)),
            final(self).iterator() == old(self).iterator(),
    {
        self.m_vertices.add_vertex(x, y, PATH_CMD_LINE_TO);
    }

    /// Ends the polygon with an end-of-polygon command carrying `flags`,
    /// at coordinates `zero`, when the path ends with a vertex.
    pub fn end_poly(&mut self, zero: C, flags: u32)
        ensures
            final(self).vertices() == (if old(self).vertices().len() > 0 && PATH_CMD_MOVE_TO
                <= old(self).vertices().last().2 < PATH_CMD_END_POLY {
                old(self).vertices().push((zero, zero, PATH_CMD_END_POLY | flags))
            } else {
                old(self).vertices()
            }),
            final(self).iterator() == old(self).iterator(),
    {
        if is_vertex(self.m_vertices.last_command()) {
            self.m_vertices.add_vertex(zero, zero, PATH_CMD_END_POLY | flags);
        }
    }

    /// Ends the polygon as closed.
    pub fn close_polygon(&mut self, zero: C, flags: u32)
        ensures
            final(self).vertices() == (if old(self).vertices().len() > 0 && PATH_CMD_MOVE_TO
                <= old(self).vertices().last().2 < PATH_CMD_END_POLY {
                old(self).vertices().push((zero, zero, PATH_CMD_END_POLY | (PATH_FLAGS_CLOSE | flags)))
            } else {
                old(self).vertices()
            }),
            final(self).iterator() == old(self).iterator(),
    {
        self.end_poly(zero, PATH_FLAGS_CLOSE | flags);
    }

    pub fn total_vertices(&self) -> (r: u32)
        requires
            self.vertices().len() <= u32::MAX,
        ensures
            r == self.vertices().len(),
    {
        self.m_vertices.total_vertices()
    }

    pub fn vertex_idx(&self, idx: u32, x: &mut C, y: &mut C) -> (r: u32)
        requires
            idx < self.vertices().len(),
        ensures
            *final(x) == self.vertices()[idx as int].0,
            *final(y) == self.vertices()[idx as int].1,
            r == self.vertices()[idx as int].2,
    {
        self.m_vertices.vertex(idx, x, y)
    }

    pub fn command(&self, idx: u32) -> (r: u32)
        requires
            self.vertices().len() > 0,
        ensures
            r == self.vertices()[(idx as int) % (self.vertices().len() as int)].2,
    {
        self.m_vertices.command(idx)
    }

    pub fn modify_vertex(&mut self, idx: u32, x: C, y: C)
        requires
            idx < old(self).vertices().len(),
        ensures
            final(self).vertices() == old(self).vertices().update(idx as int, (x, y, old(self).vertices()[idx as int].2)),
            final(self).iterator() == old(self).iterator(),
    {
        self.m_vertices.modify_vertex(idx, x, y);
    }

    pub fn modify_vertex_cmd(&mut self, idx: u32, x: C, y: C, cmd: u32)
        requires
            idx < old(self).vertices().len(),
        ensures
            final(self).vertices() == old(self).vertices().update(idx as int, (x, y, cmd)),
            final(self).iterator() == old(self).iterator(),
    {
        self.m_vertices.modify_vertex_with_cmd(idx, x, y, cmd);
    }

    pub fn modify_command(&mut self, idx: u32, cmd: u32)
        requires
            idx < old(self).vertices().len(),
        ensures
            final(self).vertices() == old(self).vertices().update(
                idx as int,
                (old(self).vertices()[idx as int].0, old(self).vertices()[idx as int].1, cmd),
            ),
            final(self).iterator() == old(self).iterator(),
    {
        self.m_vertices.modify_command(idx, cmd);
    }

    /// Turns the polygon of vertices `start` to `end - 1` round.
    fn invert_polygon_end(&mut self, start: u32, end: u32)
        requires
            start < end <= old(self).vertices().len() <= u32::MAX,
        ensures
            final(self).vertices() == inverted(old(self).vertices(), start as int, end as int),
            final(self).iterator() == old(self).iterator(),
    {
        let ghost v0 = self.vertices();
        let mut start = start;
        let tmp_cmd = self.m_vertices.command(start);
        proof {
            vstd::arithmetic::div_mod::lemma_small_mod(start as nat, v0.len());
        }
        // Make "end" inclusive
        let mut end = end - 1;
        let ghost s0 = start as int;
        let ghost e0 = end as int;
        // Shift all commands one position back
        let mut i = start;
        while i < end
            invariant
                s0 <= i <= end,
                end == e0,
                start == s0,
                e0 < v0.len(),
                v0.len() <= u32::MAX,
                self.vertices().len() == v0.len(),
                tmp_cmd == v0[s0].2,
                forall|k: int| 0 <= k < v0.len() ==> (#[trigger] self.vertices()[k]).0 == v0[k].0 && self.vertices()[k].1 == v0[k].1,
                forall|k: int| 0 <= k < v0.len() ==> (#[trigger] self.vertices()[k]).2 == (if s0 <= k < i {
                    v0[k + 1].2
                } else {
                    v0[k].2
                }),
                self.iterator() == old(self).iterator(),
            decreases end - i,
        {
            let c = self.m_vertices.command(i + 1);
            proof {
                vstd::arithmetic::div_mod::lemma_small_mod((i + 1) as nat, v0.len());
            }
            self.m_vertices.modify_command(i, c);
            i += 1;
        }
        // Give the starting command to the ending vertex
        self.m_vertices.modify_command(end, tmp_cmd);
        let ghost shifted = self.vertices();
        proof {
            assert forall|k: int| 0 <= k < v0.len() implies (#[trigger] shifted[k]) == (v0[k].0, v0[k].1, if s0 <= k < e0 {
                v0[k + 1].2
            } else if k == e0 {
                v0[s0].2
            } else {
                v0[k].2
            }) by {}
        }
        // Reverse the polygon
        while end > start
            invariant
                s0 <= start <= e0 + 1,
                s0 - 1 <= end <= e0,
                start + end == s0 + e0,
                e0 < v0.len(),
                self.vertices().len() == v0.len(),
                forall|k: int|
                    0 <= k < v0.len() ==> #[trigger] self.vertices()[k] == (if (s0 <= k < start) || (end < k <= e0) {
                        shifted[s0 + e0 - k]
                    } else {
                        shifted[k]
                    }),
                self.iterator() == old(self).iterator(),
            decreases end + 1 - start,
        {
            self.m_vertices.swap_vertices(start, end);
            start += 1;
            end -= 1;
        }
        proof {
            assert(self.vertices() =~= inverted(v0, s0, e0 + 1));
        }
    }

    /// Turns round the polygon that starts at the first vertex from `start`
    /// on (after any run of move-tos but the last) and runs up to the next
    /// stop, move-to or end of polygon.
    pub fn invert_polygon(&mut self, start: u32)
        requires
            old(self).vertices().len() <= u32::MAX,
            skip_moves(cmds_of(old(self).vertices()), skip_non_vertices(cmds_of(old(self).vertices()), start as int))
                < old(self).vertices().len(),
        ensures
            ({
                let cmds = cmds_of(old(self).vertices());
                let s = skip_moves(cmds, skip_non_vertices(cmds, start as int));
                let e = next_poly_from(cmds, s + 1);
                final(self).vertices() == inverted(old(self).vertices(), s, e)
            }),
            final(self).iterator() == old(self).iterator(),
    {
        let ghost cmds = cmds_of(self.vertices());
        let ghost s1 = skip_non_vertices(cmds, start as int);
        let ghost s2 = skip_moves(cmds, s1);
        let n = self.m_vertices.total_vertices();
        let mut start = start;
        // Skip all non-vertices at the beginning
        while start < n && !is_vertex(self.m_vertices.command(start))
            invariant
                n == self.vertices().len(),
                cmds == cmds_of(self.vertices()),
                skip_non_vertices(cmds, start as int) == s1,
            decreases n - start,
        {
            proof {
                vstd::arithmetic::div_mod::lemma_small_mod(start as nat, n as nat);
            }
            start += 1;
        }
        proof {
            if start < n {
                vstd::arithmetic::div_mod::lemma_small_mod(start as nat, n as nat);
            }
            assert(start == s1);
        }
        // Skip all insignificant move-tos
        while start + 1 < n && is_move_to(self.m_vertices.command(start)) && is_move_to(
            self.m_vertices.command(start + 1),
        )
            invariant
                n == self.vertices().len(),
                cmds == cmds_of(self.vertices()),
                start < n,
                skip_moves(cmds, start as int) == s2,
            decreases n - start,
        {
            proof {
                vstd::arithmetic::div_mod::lemma_small_mod(start as nat, n as nat);
                vstd::arithmetic::div_mod::lemma_small_mod((start + 1) as nat, n as nat);
            }
            start += 1;
        }
        proof {
            if start + 1 < n {
                vstd::arithmetic::div_mod::lemma_small_mod(start as nat, n as nat);
                vstd::arithmetic::div_mod::lemma_small_mod((start + 1) as nat, n as nat);
            }
            assert(start == s2);
        }
        // Find the last vertex
        let ghost e = next_poly_from(cmds, s2 + 1);
        let mut end = start + 1;
        while end < n && !is_next_poly(self.m_vertices.command(end))
            invariant
                n == self.vertices().len(),
                cmds == cmds_of(self.vertices()),
                start < end <= n,
                next_poly_from(cmds, end as int) == e,
            decreases n - end,
        {
            proof {
                vstd::arithmetic::div_mod::lemma_small_mod(end as nat, n as nat);
            }
            end += 1;
        }
        proof {
            if end < n {
                vstd::arithmetic::div_mod::lemma_small_mod(end as nat, n as nat);
            }
            assert(end == e);
        }
        self.invert_polygon_end(start, end);
    }

    pub fn rewind(&mut self, path_id: u32)
        ensures
            final(self).vertices() == old(self).vertices(),
            final(self).iterator() == path_id,
    {
        self.m_iterator = path_id;
    }

    /// Reads the next vertex into `x` and `y` and gives its command; a stop,
    /// with `x` and `y` kept, past the last one.
    pub fn vertex(&mut self, x: &mut C, y: &mut C) -> (r: u32)
        requires
            old(self).vertices().len() <= u32::MAX,
        ensures
            final(self).vertices() == old(self).vertices(),
            old(self).iterator() >= old(self).vertices().len() ==> {
                &&& r == PATH_CMD_STOP
                &&& final(self).iterator() == old(self).iterator()
                &&& *final(x) == *old(x)
                &&& *final(y) == *old(y)
            },
            old(self).iterator() < old(self).vertices().len() ==> {
                let v = old(self).vertices()[old(self).iterator() as int];
                &&& r == v.2
                &&& final(self).iterator() == old(self).iterator() + 1
                &&& *final(x) == v.0
                &&& *final(y) == v.1
            },
    {
        if self.m_iterator >= self.m_vertices.total_vertices() {
            return PATH_CMD_STOP;
        }
        let i = self.m_iterator;
        self.m_iterator += 1;
        self.m_vertices.vertex(i, x, y)
    }
}

} // verus!
