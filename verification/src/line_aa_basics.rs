//! Subpixel scales and line parameters of the anti-aliased outline renderer.
use vstd::prelude::*;

verus! {

pub const LINE_SUBPIXEL_SHIFT: i32 = 8;

pub const LINE_SUBPIXEL_SCALE: i32 = 256;

pub const LINE_SUBPIXEL_MASK: i32 = 255;

/// The largest coordinate the renderer accepts.
pub const MAX_COORD: i32 = 0x0FFF_FFFF;

/// The longest line segment the renderer draws in one piece.
pub const MAX_LENGTH: i32 = 0x4_0000;

#[derive(Clone, Copy, PartialEq, Eq)]
pub enum LineSubpixel {
    Shift,
    Scale,
    Mask,
}

impl LineSubpixel {
    pub open spec fn spec_value(self) -> i32 {
        match self {
            LineSubpixel::Shift => LINE_SUBPIXEL_SHIFT,
            LineSubpixel::Scale => LINE_SUBPIXEL_SCALE,
            LineSubpixel::Mask => LINE_SUBPIXEL_MASK,
        }
    }

    /// The number that the variant stands for.
    pub fn value(&self) -> (r: i32)
        ensures
            r == self.spec_value(),
    {
        match self {
            LineSubpixel::Shift => LINE_SUBPIXEL_SHIFT,
            LineSubpixel::Scale => LINE_SUBPIXEL_SCALE,
            LineSubpixel::Mask => LINE_SUBPIXEL_MASK,
        }
    }
}

pub const LINE_MR_SUBPIXEL_SHIFT: i32 = 4;

pub const LINE_MR_SUBPIXEL_SCALE: i32 = 16;

pub const LINE_MR_SUBPIXEL_MASK: i32 = 15;

#[derive(Clone, Copy, PartialEq, Eq)]
pub enum LineMRSubpixel {
    Shift,
    Scale,
    Mask,
}

impl LineMRSubpixel {
    pub open spec fn spec_value(self) -> i32 {
        match self {
            LineMRSubpixel::Shift => LINE_MR_SUBPIXEL_SHIFT,
            LineMRSubpixel::Scale => LINE_MR_SUBPIXEL_SCALE,
            LineMRSubpixel::Mask => LINE_MR_SUBPIXEL_MASK,
        }
    }

    /// The number that the variant stands for.
    pub fn value(&self) -> (r: i32)
        ensures
            r == self.spec_value(),
    {
        match self {
            LineMRSubpixel::Shift => LINE_MR_SUBPIXEL_SHIFT,
            LineMRSubpixel::Scale => LINE_MR_SUBPIXEL_SCALE,
            LineMRSubpixel::Mask => LINE_MR_SUBPIXEL_MASK,
        }
    }
}

//------------------------------------------------------------------line_mr
/// From high to medium resolution.
pub fn line_mr(x: i32) -> (r: i32)
    ensures
        r == x >> 4u32,
{
    x >> ((LINE_SUBPIXEL_SHIFT - LINE_MR_SUBPIXEL_SHIFT) as u32)
}

//-------------------------------------------------------------------line_hr
/// From medium to high resolution.
pub fn line_hr(x: i32) -> (r: i32)
    ensures
        r == x << 4u32,
{
    x << ((LINE_SUBPIXEL_SHIFT - LINE_MR_SUBPIXEL_SHIFT) as u32)
}

//---------------------------------------------------------------line_dbl_hr
/// From whole pixels to high resolution.
pub fn line_dbl_hr(x: i32) -> (r: i32)
    ensures
        r == x << 8u32,
{
    x << (LINE_SUBPIXEL_SHIFT as u32)
}

/// Medium resolution loses nothing of a coordinate that is a multiple of
/// the step between the two resolutions, and back again.
pub proof fn lemma_mr_hr_round_trip(x: i32)
    requires
        -0x0800_0000 <= x < 0x0800_0000,
    ensures
        (x << 4u32) >> 4u32 == x,
{
    assert((x << 4u32) >> 4u32 == x) by (bit_vector)
        requires
            -0x0800_0000 <= x < 0x0800_0000,
    ;
}

//---------------------------------------------------------------LineCoord
/// Converts coordinates to the high subpixel resolution by rounding.
pub struct LineCoord;

//-----------------------------------------------------------LineCoordSat
/// Converts coordinates to the high subpixel resolution, saturating at
/// `MAX_COORD`.
pub struct LineCoordSat;

//==========================================================LineParameters
#[derive(Copy, Clone)]
pub struct LineParameters {
    pub x1: i32,
    pub y1: i32,
    pub x2: i32,
    pub y2: i32,
    pub dx: i32,
    pub dy: i32,
    pub sx: i32,
    pub sy: i32,
    pub vertical: bool,
    pub inc: i32,
    pub len: i32,
    pub octant: i32,
}

// The number of the octant is a 3-bit value:
// bit 0 = vertical flag, bit 1 = sx < 0, bit 2 = sy < 0.
//
// [N] is the number of the orthogonal quadrant,
// <M> the number of the diagonal quadrant:
//               <1>
//   [1]          |          [0]
//       . (3)011 | 001(1) .
//         .      |      .
//           .    |    .
//             .  |  .
//    (2)010     .|.     000(0)
// <2> ----------.+.----------- <0>
//    (6)110   .  |  .   100(4)
//           .    |    .
//         .      |      .
//       .        |        .
//         (7)111 | 101(5)
//   [2]          |          [3]
//               <3>
pub const ORTHOGONAL_QUADRANT: [u8; 8] = [0, 0, 1, 1, 3, 3, 2, 2];

pub const DIAGONAL_QUADRANT: [u8; 8] = [0, 1, 2, 1, 0, 3, 2, 3];

pub open spec fn orthogonal_quadrant_spec(octant: int) -> u8 {
    seq![0u8, 0u8, 1u8, 1u8, 3u8, 3u8, 2u8, 2u8][octant]
}

pub open spec fn diagonal_quadrant_spec(octant: int) -> u8 {
    seq![0u8, 1u8, 2u8, 1u8, 0u8, 3u8, 2u8, 3u8][octant]
}

pub open spec fn abs_spec(v: int) -> int {
    if v < 0 {
        -v
    } else {
        v
    }
}

fn orthogonal_table() -> (r: [u8; 8])
    ensures
        forall|i: int| 0 <= i < 8 ==> r@[i] == orthogonal_quadrant_spec(i),
{
    let r = ORTHOGONAL_QUADRANT;
    assert(r@ =~= seq![0u8, 0u8, 1u8, 1u8, 3u8, 3u8, 2u8, 2u8]);
    r
}

fn diagonal_table() -> (r: [u8; 8])
    ensures
        forall|i: int| 0 <= i < 8 ==> r@[i] == diagonal_quadrant_spec(i),
{
    let r = DIAGONAL_QUADRANT;
    assert(r@ =~= seq![0u8, 1u8, 2u8, 1u8, 0u8, 3u8, 2u8, 3u8]);
    r
}

impl LineParameters {
    pub fn new_default() -> (r: Self)
        ensures
            r == (LineParameters {
                x1: 0,
                y1: 0,
                x2: 0,
                y2: 0,
                dx: 0,
                dy: 0,
                sx: 0,
                sy: 0,
                vertical: false,
                inc: 0,
                len: 0,
                octant: 0,
            }),
    {
        Self {
            x1: 0,
            y1: 0,
            x2: 0,
            y2: 0,
            dx: 0,
            dy: 0,
            sx: 0,
            sy: 0,
            vertical: false,
            inc: 0,
            len: 0,
            octant: 0,
        }
    }

    pub fn new(x1_: i32, y1_: i32, x2_: i32, y2_: i32, len_: i32) -> (r: LineParameters)
        requires
            i32::MIN < x2_ - x1_ <= i32::MAX,
            i32::MIN < y2_ - y1_ <= i32::MAX,
        ensures
            r.x1 == x1_ && r.y1 == y1_ && r.x2 == x2_ && r.y2 == y2_ && r.len == len_,
            r.dx == abs_spec(x2_ - x1_),
            r.dy == abs_spec(y2_ - y1_),
            r.sx == (if x2_ > x1_ {
                1int
            } else {
                -1
            }),
            r.sy == (if y2_ > y1_ {
                1int
            } else {
                -1
            }),
            r.vertical == (r.dy >= r.dx),
            r.inc == (if r.vertical {
                r.sy
            } else {
                r.sx
            }),
            r.octant == (if r.sy < 0 {
                4int
            } else {
                0
            }) + (if r.sx < 0 {
                2int
            } else {
                0
            }) + (if r.vertical {
                1int
            } else {
                0
            }),
    {
        let ddx = x2_ - x1_;
        let ddy = y2_ - y1_;
        let dx = if ddx < 0 {
            -ddx
        } else {
            ddx
        };
        let dy = if ddy < 0 {
            -ddy
        } else {
            ddy
        };
        let sx: i32 = if x2_ > x1_ {
            1
        } else {
            -1
        };
        let sy: i32 = if y2_ > y1_ {
            1
        } else {
            -1
        };
        let vertical = dy >= dx;
        let inc = if vertical {
            sy
        } else {
            sx
        };
        let v: i32 = if vertical {
            1
        } else {
            0
        };
        let octant = (sy & 4) | (sx & 2) | v;
        assert(octant == (if sy < 0 {
            4i32
        } else {
            0
        }) + (if sx < 0 {
            2i32
        } else {
            0
        }) + v) by (bit_vector)
            requires
                sx == 1i32 || sx == -1i32,
                sy == 1i32 || sy == -1i32,
                v == 0i32 || v == 1i32,
                octant == (sy & 4) | (sx & 2) | v,
        ;
        LineParameters {
            x1: x1_,
            y1: y1_,
            x2: x2_,
            y2: y2_,
            dx: dx,
            dy: dy,
            sx: sx,
            sy: sy,
            vertical: vertical,
            inc: inc,
            len: len_,
            octant: octant,
        }
    }

    pub fn orthogonal_quadrant(&self) -> (r: u8)
        requires
            0 <= self.octant < 8,
        ensures
            r == orthogonal_quadrant_spec(self.octant as int),
    {
        let t = orthogonal_table();
        t[self.octant as usize]
    }

    pub fn diagonal_quadrant(&self) -> (r: u8)
        requires
            0 <= self.octant < 8,
        ensures
            r == diagonal_quadrant_spec(self.octant as int),
    {
        let t = diagonal_table();
        t[self.octant as usize]
    }

    pub fn same_orthogonal_quadrant(&self, lp: &LineParameters) -> (r: bool)
        requires
            0 <= self.octant < 8,
            0 <= lp.octant < 8,
        ensures
            r == (orthogonal_quadrant_spec(self.octant as int) == orthogonal_quadrant_spec(
                lp.octant as int,
            )),
    {
        let t = orthogonal_table();
        t[self.octant as usize] == t[lp.octant as usize]
    }

    pub fn same_diagonal_quadrant(&self, lp: &LineParameters) -> (r: bool)
        requires
            0 <= self.octant < 8,
            0 <= lp.octant < 8,
        ensures
            r == (diagonal_quadrant_spec(self.octant as int) == diagonal_quadrant_spec(
                lp.octant as int,
            )),
    {
        let t = diagonal_table();
        t[self.octant as usize] == t[lp.octant as usize]
    }

    /// Splits the line at its midpoint into `lp1` (first half) and `lp2`
    /// (second half).
    pub fn divide(&self, lp1: &mut LineParameters, lp2: &mut LineParameters)
        requires
            i32::MIN <= self.x1 + self.x2 <= i32::MAX,
            i32::MIN <= self.y1 + self.y2 <= i32::MAX,
            i32::MIN <= ((self.x1 + self.x2) as i32 >> 1u32) - self.x1 <= i32::MAX,
            i32::MIN <= ((self.y1 + self.y2) as i32 >> 1u32) - self.y1 <= i32::MAX,
            i32::MIN <= self.x2 - ((self.x1 + self.x2) as i32 >> 1u32) <= i32::MAX,
            i32::MIN <= self.y2 - ((self.y1 + self.y2) as i32 >> 1u32) <= i32::MAX,
        ensures
            ({
                let xmid = (self.x1 + self.x2) as i32 >> 1u32;
                let ymid = (self.y1 + self.y2) as i32 >> 1u32;
                let len2 = self.len >> 1u32;
                &&& *final(lp1) == LineParameters {
                    x2: xmid,
                    y2: ymid,
                    len: len2,
                    dx: (xmid - self.x1) as i32,
                    dy: (ymid - self.y1) as i32,
                    ..*self
                }
                &&& *final(lp2) == LineParameters {
                    x1: xmid,
                    y1: ymid,
                    len: len2,
                    dx: (self.x2 - xmid) as i32,
                    dy: (self.y2 - ymid) as i32,
                    ..*self
                }
            }),
    {
        let xmid = (self.x1 + self.x2) >> 1u32;
        let ymid = (self.y1 + self.y2) >> 1u32;
        let len2 = self.len >> 1u32;
        *lp1 = *self;
        *lp2 = *self;
        lp1.x2 = xmid;
        lp1.y2 = ymid;
        lp1.len = len2;
        lp1.dx = lp1.x2 - lp1.x1;
        lp1.dy = lp1.y2 - lp1.y1;
        lp2.x1 = xmid;
        lp2.y1 = ymid;
        lp2.len = len2;
        lp2.dx = lp2.x2 - lp2.x1;
        lp2.dy = lp2.y2 - lp2.y1;
    }
}

/// The octant of a line always names one of the eight table entries.
pub proof fn lemma_octant_in_range(lp: LineParameters)
    requires
        lp.sx == 1 || lp.sx == -1,
        lp.sy == 1 || lp.sy == -1,
        lp.octant == (if lp.sy < 0 {
            4int
        } else {
            0
        }) + (if lp.sx < 0 {
            2int
        } else {
            0
        }) + (if lp.vertical {
            1int
        } else {
            0
        }),
    ensures
        0 <= lp.octant < 8,
        orthogonal_quadrant_spec(lp.octant as int) < 4,
        diagonal_quadrant_spec(lp.octant as int) < 4,
{
}

} // verus!
