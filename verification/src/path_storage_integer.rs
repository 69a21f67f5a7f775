//! Paths stored with integer coordinates: each coordinate carries one bit of
//! the vertex command in its lowest bit.
use crate::basics::{
    is_move_to, PATH_CMD_CURVE3, PATH_CMD_CURVE4, PATH_CMD_END_POLY, PATH_CMD_LINE_TO,
    PATH_CMD_MOVE_TO, PATH_CMD_STOP, PATH_FLAGS_CLOSE,
};
use crate::{AggInteger, PathStore};
use vstd::prelude::*;

verus! {

/// `v` shifted left by one with `bit` in the freed lowest bit, computed in
/// 32 bits and converted back to `T`; only the bits that fit in `T` remain.
pub open spec fn encode_coord<T: AggInteger>(v: T, bit: u32) -> T {
    T::spec_from_u32((v.spec_into_u32() << 1u32) | bit)
}

/// The two command bits kept in the lowest bits of a vertex's coordinates.
pub open spec fn cmd_bits<T: AggInteger>(x: T, y: T) -> u32 {
    ((y.spec_into_u32() & 1) << 1u32) | (x.spec_into_u32() & 1)
}

/// The path command that two command bits stand for.
pub open spec fn decode_cmd(bits: u32) -> u32 {
    if bits == 0 {
        PATH_CMD_MOVE_TO
    } else if bits == 1 {
        PATH_CMD_LINE_TO
    } else if bits == 2 {
        PATH_CMD_CURVE3
    } else if bits == 3 {
        PATH_CMD_CURVE4
    } else {
        PATH_CMD_STOP
    }
}

/// A vertex with two integer coordinates in units of `1 / 2^COORD_SHIFT`;
/// the lowest bit of each coordinate holds one bit of its command.
#[derive(Copy, Clone)]
pub struct VertexInteger<T: AggInteger, const COORD_SHIFT: u32> {
    pub x: T,
    pub y: T,
}

impl<T: AggInteger, const COORD_SHIFT: u32> VertexInteger<T, COORD_SHIFT> {
    /// The command of this vertex.
    pub open spec fn cmd_spec(&self) -> u32 {
        decode_cmd(cmd_bits(self.x, self.y))
    }

    /// The coordinates without their command bits, in units of
    /// `1 / 2^COORD_SHIFT`.
    pub open spec fn coords_spec(&self) -> (i32, i32) {
        (self.x.spec_into_i32() >> 1u32, self.y.spec_into_i32() >> 1u32)
    }

    pub fn new_default() -> (r: Self)
        ensures
            r.x == T::spec_from_u32(0),
            r.y == T::spec_from_u32(0),
    {
        Self { x: T::from_u32(0), y: T::from_u32(0) }
    }

    /// Packs the coordinates with a command: bit 0 of `flag` goes into `x`,
    /// the rest of `flag` shifted down by one into `y`.
    pub fn new(x_: T, y_: T, flag: u32) -> (r: Self)
        ensures
            r.x == encode_coord(x_, flag & 1),
            r.y == encode_coord(y_, flag >> 1u32),
    {
        Self {
            x: T::from_u32((x_.into_u32() << 1u32) | (flag & 1)),
            y: T::from_u32((y_.into_u32() << 1u32) | (flag >> 1u32)),
        }
    }

    /// The path command that this vertex carries.
    pub fn cmd(&self) -> (r: u32)
        ensures
            r == self.cmd_spec(),
    {
        let bits = ((self.y.into_u32() & 1) << 1u32) | (self.x.into_u32() & 1);
        if bits == 0 {
            PATH_CMD_MOVE_TO
        } else if bits == 1 {
            PATH_CMD_LINE_TO
        } else if bits == 2 {
            PATH_CMD_CURVE3
        } else if bits == 3 {
            PATH_CMD_CURVE4
        } else {
            PATH_CMD_STOP
        }
    }

    /// The coordinates without their command bits.
    pub fn coords(&self) -> (r: (i32, i32))
        ensures
            r == self.coords_spec(),
    {
        (self.x.into_i32() >> 1u32, self.y.into_i32() >> 1u32)
    }
}

/// The command word that closes a polygon.
pub open spec fn end_poly_close() -> u32 {
    PATH_CMD_END_POLY | PATH_FLAGS_CLOSE
}

/// One step of reading a stored path back: the command, the coordinates, and
/// the next position and closed state. A path of fewer than two vertices
/// reads as empty; past its last vertex the path is closed once, and a move
/// to a new start first closes the open polygon.
pub open spec fn vertex_step<T: AggInteger>(
    vs: Seq<VertexInteger<T, 6>>,
    idx: usize,
    closed: bool,
) -> (u32, i32, i32, usize, bool) {
    let n = vs.len();
    if n < 2 || idx > n {
        (PATH_CMD_STOP, 0, 0, idx, closed)
    } else if idx == n {
        (end_poly_close(), 0, 0, (idx + 1) as usize, closed)
    } else {
        let v = vs[idx as int];
        if v.cmd_spec() == PATH_CMD_MOVE_TO && !closed {
            (end_poly_close(), 0, 0, idx, true)
        } else {
            (v.cmd_spec(), v.coords_spec().0, v.coords_spec().1, (idx + 1) as usize, false)
        }
    }
}

/// A path whose vertices are stored with integer coordinates.
pub struct PathStorageInteger<T: AggInteger, const COORD_SHIFT: u32> {
    storage: Vec<VertexInteger<T, 6>>,
    vertex_idx: usize,
    closed: bool,
}

impl<T: AggInteger, const COORD_SHIFT: u32> PathStorageInteger<T, COORD_SHIFT> {
    /// The stored vertices, in order.
    pub closed spec fn vertices(&self) -> Seq<VertexInteger<T, 6>> {
        self.storage@
    }

    /// The position of the next vertex to read, and whether the polygon
    /// read so far is closed.
    pub closed spec fn cursor(&self) -> (usize, bool) {
        (self.vertex_idx, self.closed)
    }

    pub fn new() -> (r: Self)
        ensures
            r.vertices() == Seq::<VertexInteger<T, 6>>::empty(),
            r.cursor() == (0usize, true),
    {
        PathStorageInteger { storage: Vec::new(), vertex_idx: 0, closed: true }
    }

    pub fn remove_all(&mut self)
        ensures
            final(self).vertices() == Seq::<VertexInteger<T, 6>>::empty(),
            final(self).cursor() == old(self).cursor(),
    {
        self.storage.clear();
    }

    pub fn size(&self) -> (r: usize)
        ensures
            r == self.vertices().len(),
    {
        self.storage.len()
    }

    /// The number of bytes the stored vertices take.
    pub fn byte_size(&self) -> (r: usize)
        requires
            self.vertices().len() * vstd::layout::size_of::<VertexInteger<T, 6>>() <= usize::MAX,
        ensures
            r == self.vertices().len() * vstd::layout::size_of::<VertexInteger<T, 6>>(),
    {
        self.storage.len() * core::mem::size_of::<VertexInteger<T, 6>>()
    }

    pub fn rewind(&mut self, path_id: u32)
        ensures
            final(self).vertices() == old(self).vertices(),
            final(self).cursor() == (0usize, true),
    {
        self.vertex_idx = 0;
        self.closed = true;
    }

    /// Reads the next vertex: its command, and its coordinates without the
    /// command bits (zero for a stop or a closing command).
    pub fn vertex(&mut self, x: &mut i32, y: &mut i32) -> (r: u32)
        requires
            old(self).vertices().len() < usize::MAX,
        ensures
            final(self).vertices() == old(self).vertices(),
            ({
                let s = vertex_step(old(self).vertices(), old(self).cursor().0, old(self).cursor().1);
                &&& r == s.0
                &&& *final(x) == s.1
                &&& *final(y) == s.2
                &&& final(self).cursor() == (s.3, s.4)
            }),
    {
        let n = self.storage.len();
        if n < 2 || self.vertex_idx > n {
            *x = 0;
            *y = 0;
            return PATH_CMD_STOP;
        }
        if self.vertex_idx == n {
            *x = 0;
            *y = 0;
            self.vertex_idx += 1;
            return PATH_CMD_END_POLY | PATH_FLAGS_CLOSE;
        }
        let v = self.storage[self.vertex_idx];
        let cmd = v.cmd();
        if is_move_to(cmd) && !self.closed {
            *x = 0;
            *y = 0;
            self.closed = true;
            return PATH_CMD_END_POLY | PATH_FLAGS_CLOSE;
        }
        let (vx, vy) = v.coords();
        *x = vx;
        *y = vy;
        self.closed = false;
        self.vertex_idx += 1;
        cmd
    }
}

impl<T: AggInteger, const COORD_SHIFT: u32> PathStore for PathStorageInteger<T, COORD_SHIFT> {
    type T = T;

    fn move_to(&mut self, x: T, y: T)
        ensures
            final(self).vertices() == old(self).vertices().push(
                VertexInteger { x: encode_coord(x, 0), y: encode_coord(y, 0) },
            ),
            final(self).cursor() == old(self).cursor(),
    {
        proof {
            flag_bits();
        }
        self.storage.push(VertexInteger::new(x, y, 0));
    }

    fn line_to(&mut self, x: T, y: T)
        ensures
            final(self).vertices() == old(self).vertices().push(
                VertexInteger { x: encode_coord(x, 1), y: encode_coord(y, 0) },
            ),
            final(self).cursor() == old(self).cursor(),
    {
        proof {
            flag_bits();
        }
        self.storage.push(VertexInteger::new(x, y, 1));
    }

    fn curve3(&mut self, x_ctrl: T, y_ctrl: T, x_to: T, y_to: T)
        ensures
            final(self).vertices() == old(self).vertices().push(
                VertexInteger { x: encode_coord(x_ctrl, 0), y: encode_coord(y_ctrl, 1) },
            ).push(VertexInteger { x: encode_coord(x_to, 0), y: encode_coord(y_to, 1) }),
            final(self).cursor() == old(self).cursor(),
    {
        proof {
            flag_bits();
        }
        self.storage.push(VertexInteger::new(x_ctrl, y_ctrl, 2));
        self.storage.push(VertexInteger::new(x_to, y_to, 2));
    }

    fn curve4(&mut self, x_ctrl1: T, y_ctrl1: T, x_ctrl2: T, y_ctrl2: T, x_to: T, y_to: T)
        ensures
            final(self).vertices() == old(self).vertices().push(
                VertexInteger { x: encode_coord(x_ctrl1, 1), y: encode_coord(y_ctrl1, 1) },
            ).push(VertexInteger { x: encode_coord(x_ctrl2, 1), y: encode_coord(y_ctrl2, 1) }).push(
                VertexInteger { x: encode_coord(x_to, 1), y: encode_coord(y_to, 1) },
            ),
            final(self).cursor() == old(self).cursor(),
    {
        proof {
            flag_bits();
        }
        self.storage.push(VertexInteger::new(x_ctrl1, y_ctrl1, 3));
        self.storage.push(VertexInteger::new(x_ctrl2, y_ctrl2, 3));
        self.storage.push(VertexInteger::new(x_to, y_to, 3));
    }

    fn close_polygon(&mut self)
        ensures
            *final(self) == *old(self),
    {
    }
}

/// The command bits of the four vertex kinds.
proof fn flag_bits()
    by (bit_vector)
    ensures
        0u32 & 1 == 0 && 0u32 >> 1u32 == 0,
        1u32 & 1 == 1 && 1u32 >> 1u32 == 0,
        2u32 & 1 == 0 && 2u32 >> 1u32 == 1,
        3u32 & 1 == 1 && 3u32 >> 1u32 == 1,
{
}

/// A vertex packed from 32-bit coordinates that fit in 31 bits reads back as
/// what was packed: the command of `flag` and both coordinates.
pub proof fn lemma_vertex_round_trip_i32(x: i32, y: i32, flag: u32)
    requires
        -0x4000_0000 <= x < 0x4000_0000,
        -0x4000_0000 <= y < 0x4000_0000,
        flag < 4,
    ensures
        ({
            let v = VertexInteger::<i32, 6> { x: encode_coord(x, flag & 1), y: encode_coord(y, flag >> 1u32) };
            &&& v.cmd_spec() == decode_cmd(flag)
            &&& v.coords_spec() == (x, y)
        }),
{
    round_trip_i32_bits(x, y, flag);
}

/// The same for 16-bit coordinates that fit in 15 bits.
pub proof fn lemma_vertex_round_trip_i16(x: i16, y: i16, flag: u32)
    requires
        -0x4000 <= x < 0x4000,
        -0x4000 <= y < 0x4000,
        flag < 4,
    ensures
        ({
            let v = VertexInteger::<i16, 6> { x: encode_coord(x, flag & 1), y: encode_coord(y, flag >> 1u32) };
            &&& v.cmd_spec() == decode_cmd(flag)
            &&& v.coords_spec() == (x as i32, y as i32)
        }),
{
    round_trip_i16_bits(x, y, flag);
}

proof fn round_trip_i32_bits(x: i32, y: i32, flag: u32)
    by (bit_vector)
    requires
        -0x4000_0000 <= x < 0x4000_0000,
        -0x4000_0000 <= y < 0x4000_0000,
        flag < 4,
    ensures
        ((((((((y as u32) << 1u32) | (flag >> 1u32)) as i32) as u32) & 1) << 1u32) | (
        ((((x as u32) << 1u32) | (flag & 1)) as i32) as u32 & 1)) == flag,
        (((((x as u32) << 1u32) | (flag & 1)) as i32) as i32) >> 1u32 == x,
        (((((y as u32) << 1u32) | (flag >> 1u32)) as i32) as i32) >> 1u32 == y,
{
}

proof fn round_trip_i16_bits(x: i16, y: i16, flag: u32)
    by (bit_vector)
    requires
        -0x4000 <= x < 0x4000,
        -0x4000 <= y < 0x4000,
        flag < 4,
    ensures
        ((((((((y as u32) << 1u32) | (flag >> 1u32)) as i16) as u32) & 1) << 1u32) | (
        ((((x as u32) << 1u32) | (flag & 1)) as i16) as u32 & 1)) == flag,
        (((((x as u32) << 1u32) | (flag & 1)) as i16) as i32) >> 1u32 == x as i32,
        (((((y as u32) << 1u32) | (flag >> 1u32)) as i16) as i32) >> 1u32 == y as i32,
{
}

/// One call that edits a `PathStorageInteger`.
pub enum PathEdit {
    MoveTo,
    LineTo,
    Curve3,
    Curve4,
    ClosePolygon,
    RemoveAll,
}

/// The number of vertices after the calls `edits`, from `n0`, as their
/// contracts state it: one per `move_to` or `line_to`, two per `curve3`,
/// three per `curve4`, none per `close_polygon`, and none left after
/// `remove_all`.
pub open spec fn size_after(n0: nat, edits: Seq<PathEdit>) -> nat
    decreases edits.len(),
{
    if edits.len() == 0 {
        n0
    } else {
        let n = size_after(n0, edits.drop_last());
        match edits.last() {
            PathEdit::MoveTo => n + 1,
            PathEdit::LineTo => n + 1,
            PathEdit::Curve3 => n + 2,
            PathEdit::Curve4 => n + 3,
            PathEdit::ClosePolygon => n,
            PathEdit::RemoveAll => 0,
        }
    }
}

/// The vertices an edit adds.
pub open spec fn edit_weight(e: PathEdit) -> nat {
    match e {
        PathEdit::MoveTo => 1,
        PathEdit::LineTo => 1,
        PathEdit::Curve3 => 2,
        PathEdit::Curve4 => 3,
        _ => 0,
    }
}

/// The vertices the edits add since the last `remove_all`.
pub open spec fn added_since_clear(edits: Seq<PathEdit>) -> nat
    decreases edits.len(),
{
    if edits.len() == 0 {
        0
    } else if edits.last() is RemoveAll {
        0
    } else {
        added_since_clear(edits.drop_last()) + edit_weight(edits.last())
    }
}

/// After `new` and any edits, the path holds the vertices added since the
/// last `remove_all`, and `byte_size` is that many vertices' bytes.
pub proof fn lemma_size_after_edits<T: AggInteger>(edits: Seq<PathEdit>)
    ensures
        size_after(0, edits) == added_since_clear(edits),
        size_after(0, edits) * vstd::layout::size_of::<VertexInteger<T, 6>>() == added_since_clear(edits)
            * vstd::layout::size_of::<VertexInteger<T, 6>>(),
    decreases edits.len(),
{
    if edits.len() > 0 {
        lemma_size_after_edits::<T>(edits.drop_last());
    }
}

} // verus!
