//! Basic types of the library: scales, rectangles, path commands and flags,
//! points and vertices.
use crate::order::{is_greater, is_greater_eq, is_less, is_less_eq, lemma_i32_order, ordered, comparable};
use crate::Point;
use vstd::prelude::*;

verus! {

//---------------------------------------------------------------Saturation
/// Rounding to an integer clamped to `[-LIMIT, LIMIT]`; the rounding of
/// floating-point values is done outside this crate.
pub struct Saturation<const LIMIT: u32>;

/// Multiplication of two fixed-point values whose unit is `2^SHIFT - 1`.
pub struct MulOne<const SHIFT: u32>;

/// The product `a * b / (2^SHIFT - 1)` rounded as the library does it.
pub open spec fn mul_one_spec(a: int, b: int, shift: nat) -> int {
    let q = a * b + vstd::arithmetic::power2::pow2((shift - 1) as nat);
    (q + q / vstd::arithmetic::power2::pow2(shift) as int) / vstd::arithmetic::power2::pow2(
        shift,
    ) as int
}

impl<const SHIFT: u32> Saturation<SHIFT> {
    /// `(q + (q >> SHIFT)) >> SHIFT` with `q = a * b + 2^(SHIFT - 1)`.
    pub fn mul(a: u32, b: u32) -> (r: u32)
        requires
            1 <= SHIFT < 32,
            a * b + vstd::arithmetic::power2::pow2((SHIFT - 1) as nat) <= u32::MAX,
            ({
                let q = a * b + vstd::arithmetic::power2::pow2((SHIFT - 1) as nat);
                q + q / vstd::arithmetic::power2::pow2(SHIFT as nat) as int <= u32::MAX
            }),
        ensures
            r == mul_one_spec(a as int, b as int, SHIFT as nat),
    {
        let half: u32 = 1u32 << (SHIFT - 1);
        proof {
            vstd::arithmetic::power2::lemma2_to64();
            vstd::bits::lemma_u32_shl_is_mul(1u32, (SHIFT - 1) as u32);
            vstd::arithmetic::power2::lemma_pow2_pos((SHIFT - 1) as nat);
        }
        assert(half as int == vstd::arithmetic::power2::pow2((SHIFT - 1) as nat));
        assert(a * b <= u32::MAX) by (nonlinear_arith)
            requires
                a * b + half <= u32::MAX,
                half >= 0,
        ;
        let q = a * b + half;
        let qs = q >> SHIFT;
        proof {
            vstd::bits::lemma_u32_shr_is_div(q, SHIFT);
        }
        let s = q + qs;
        let r = s >> SHIFT;
        proof {
            vstd::bits::lemma_u32_shr_is_div(s, SHIFT);
        }
        r
    }
}

/// The type of a coverage value.
pub type CoverType = u8;

pub const COVER_SHIFT: u32 = 8;

pub const COVER_SIZE: u32 = 256;

pub const COVER_MASK: u32 = 255;

pub const COVER_NONE: u32 = 0;

pub const COVER_FULL: u32 = 255;

/// The scale of coverage values.
#[derive(Clone, Copy, PartialEq, Eq)]
pub enum CoverScale {
    Shift,
    Size,
    Mask,
    Zero,
}

impl CoverScale {
    pub open spec fn spec_value(self) -> u32 {
        match self {
            CoverScale::Shift => COVER_SHIFT,
            CoverScale::Size => COVER_SIZE,
            CoverScale::Mask => COVER_MASK,
            CoverScale::Zero => COVER_NONE,
        }
    }

    /// The number that the variant stands for.
    pub fn value(&self) -> (r: u32)
        ensures
            r == self.spec_value(),
    {
        match self {
            CoverScale::Shift => COVER_SHIFT,
            CoverScale::Size => COVER_SIZE,
            CoverScale::Mask => COVER_MASK,
            CoverScale::Zero => COVER_NONE,
        }
    }
}

pub const POLY_SUBPIXEL_SHIFT: u32 = 8;

pub const POLY_SUBPIXEL_SCALE: u32 = 256;

pub const POLY_SUBPIXEL_MASK: u32 = 255;

/// The subpixel accuracy of rasterized coordinates: the number of bits of
/// their fractional part.
#[derive(Clone, Copy, PartialEq, Eq)]
pub enum PolySubpixelScale {
    Shift,
    Scale,
    Mask,
}

impl PolySubpixelScale {
    pub open spec fn spec_value(self) -> u32 {
        match self {
            PolySubpixelScale::Shift => POLY_SUBPIXEL_SHIFT,
            PolySubpixelScale::Scale => POLY_SUBPIXEL_SCALE,
            PolySubpixelScale::Mask => POLY_SUBPIXEL_MASK,
        }
    }

    /// The number that the variant stands for.
    pub fn value(&self) -> (r: u32)
        ensures
            r == self.spec_value(),
    {
        match self {
            PolySubpixelScale::Shift => POLY_SUBPIXEL_SHIFT,
            PolySubpixelScale::Scale => POLY_SUBPIXEL_SCALE,
            PolySubpixelScale::Mask => POLY_SUBPIXEL_MASK,
        }
    }
}

//----------------------------------------------------------FillingRule
#[derive(PartialEq, Eq, Structural, Clone, Copy)]
pub enum FillingRule {
    FillNonZero,
    FillEvenOdd,
}

//----------------------------------------------------------------RectBase
#[derive(Copy, Clone)]
pub struct RectBase<T: PartialOrd + Copy> {
    pub x1: T,
    pub y1: T,
    pub x2: T,
    pub y2: T,
}

pub type RectI = RectBase<i32>;

impl<T: PartialOrd + Copy> RectBase<T> {
    /// Both corners are in order.
    pub open spec fn valid_spec(self) -> bool {
        is_less_eq(self.x1, self.x2) && is_less_eq(self.y1, self.y2)
    }

    /// The point lies inside the rectangle, borders included.
    pub open spec fn contains_spec(self, x: T, y: T) -> bool {
        is_greater_eq(x, self.x1) && is_less_eq(x, self.x2) && is_greater_eq(y, self.y1)
            && is_less_eq(y, self.y2)
    }

    /// The rectangle with each pair of coordinates put in order.
    pub open spec fn normalized(self) -> Self {
        RectBase {
            x1: if is_greater(self.x1, self.x2) {
                self.x2
            } else {
                self.x1
            },
            x2: if is_greater(self.x1, self.x2) {
                self.x1
            } else {
                self.x2
            },
            y1: if is_greater(self.y1, self.y2) {
                self.y2
            } else {
                self.y1
            },
            y2: if is_greater(self.y1, self.y2) {
                self.y1
            } else {
                self.y2
            },
        }
    }

    /// The rectangle cut down to `r`.
    pub open spec fn clipped(self, r: Self) -> Self {
        RectBase {
            x2: if is_greater(self.x2, r.x2) {
                r.x2
            } else {
                self.x2
            },
            y2: if is_greater(self.y2, r.y2) {
                r.y2
            } else {
                self.y2
            },
            x1: if is_less(self.x1, r.x1) {
                r.x1
            } else {
                self.x1
            },
            y1: if is_less(self.y1, r.y1) {
                r.y1
            } else {
                self.y1
            },
        }
    }

    /// The rectangle grown to take in `r`.
    pub open spec fn united(self, r: Self) -> Self {
        RectBase {
            x2: if is_less(self.x2, r.x2) {
                r.x2
            } else {
                self.x2
            },
            y2: if is_less(self.y2, r.y2) {
                r.y2
            } else {
                self.y2
            },
            x1: if is_greater(self.x1, r.x1) {
                r.x1
            } else {
                self.x1
            },
            y1: if is_greater(self.y1, r.y1) {
                r.y1
            } else {
                self.y1
            },
        }
    }

    pub fn new(x1_: T, y1_: T, x2_: T, y2_: T) -> (r: Self)
        ensures
            r == (RectBase { x1: x1_, y1: y1_, x2: x2_, y2: y2_ }),
    {
        RectBase { x1: x1_, y1: y1_, x2: x2_, y2: y2_ }
    }

    pub fn init(&mut self, x1_: T, y1_: T, x2_: T, y2_: T)
        ensures
            *final(self) == (RectBase { x1: x1_, y1: y1_, x2: x2_, y2: y2_ }),
    {
        self.x1 = x1_;
        self.y1 = y1_;
        self.x2 = x2_;
        self.y2 = y2_;
    }

    /// Swaps the coordinates of each pair that is out of order.
    pub fn normalize(&mut self) -> (r: &Self)
        ensures
            ordered::<T>() ==> *final(self) == old(self).normalized(),
            (final(self).x1 == old(self).x1 && final(self).x2 == old(self).x2) || (final(self).x1
                == old(self).x2 && final(self).x2 == old(self).x1),
            (final(self).y1 == old(self).y1 && final(self).y2 == old(self).y2) || (final(self).y1
                == old(self).y2 && final(self).y2 == old(self).y1),
            *r == *final(self),
    {
        let mut t: T;
        if self.x1 > self.x2 {
            t = self.x1;
            self.x1 = self.x2;
            self.x2 = t;
        }
        if self.y1 > self.y2 {
            t = self.y1;
            self.y1 = self.y2;
            self.y2 = t;
        }
        self
    }

    /// Cuts the rectangle down to `r` and tells whether anything is left.
    pub fn clip(&mut self, r: &Self) -> (res: bool)
        ensures
            ordered::<T>() ==> *final(self) == old(self).clipped(*r),
            ordered::<T>() ==> res == final(self).valid_spec(),
    {
        if self.x2 > r.x2 {
            self.x2 = r.x2;
        }
        if self.y2 > r.y2 {
            self.y2 = r.y2;
        }
        if self.x1 < r.x1 {
            self.x1 = r.x1;
        }
        if self.y1 < r.y1 {
            self.y1 = r.y1;
        }
        return self.x1 <= self.x2 && self.y1 <= self.y2;
    }

    pub fn is_valid(&self) -> (r: bool)
        ensures
            ordered::<T>() ==> r == self.valid_spec(),
    {
        return self.x1 <= self.x2 && self.y1 <= self.y2;
    }

    pub fn hit_test(&self, x: T, y: T) -> (r: bool)
        ensures
            ordered::<T>() ==> r == self.contains_spec(x, y),
    {
        return x >= self.x1 && x <= self.x2 && y >= self.y1 && y <= self.y2;
    }
}

//-----------------------------------------------------intersect_rectangles
/// Cuts `r1` down to `r2` and hands it back.
pub fn intersect_rectangles<'a, T: PartialOrd + Copy>(
    r1: &'a mut RectBase<T>,
    r2: &'a RectBase<T>,
) -> (res: &'a RectBase<T>)
    ensures
        ordered::<T>() ==> *final(r1) == old(r1).clipped(*r2),
        *res == *final(r1),
{
    let r = r1;
    if r.x2 > r2.x2 {
        r.x2 = r2.x2;
    }
    if r.y2 > r2.y2 {
        r.y2 = r2.y2;
    }
    if r.x1 < r2.x1 {
        r.x1 = r2.x1;
    }
    if r.y1 < r2.y1 {
        r.y1 = r2.y1;
    }
    return r;
}

//---------------------------------------------------------unite_rectangles
/// Grows `r1` to take in `r2` and hands it back.
pub fn unite_rectangles<'a, T: PartialOrd + Copy>(
    r1: &'a mut RectBase<T>,
    r2: &'a RectBase<T>,
) -> (res: &'a RectBase<T>)
    ensures
        ordered::<T>() ==> *final(r1) == old(r1).united(*r2),
        *res == *final(r1),
{
    let r = r1;
    if r.x2 < r2.x2 {
        r.x2 = r2.x2;
    }
    if r.y2 < r2.y2 {
        r.y2 = r2.y2;
    }
    if r.x1 > r2.x1 {
        r.x1 = r2.x1;
    }
    if r.y1 > r2.y1 {
        r.y1 = r2.y1;
    }
    return r;
}

/// Normalizing an integer rectangle makes it valid, and a valid one is left
/// as it is.
pub proof fn lemma_normalize_valid(r: RectI)
    ensures
        r.normalized().valid_spec(),
        r.valid_spec() ==> r.normalized() == r,
        r.normalized().normalized() == r.normalized(),
{
    lemma_i32_order(r.x1, r.x2);
    lemma_i32_order(r.y1, r.y2);
    lemma_i32_order(r.x2, r.x1);
    lemma_i32_order(r.y2, r.y1);
}

/// Normalizing a rectangle whose coordinates compare (no NaN) makes it
/// valid, whatever the coordinate type.
pub proof fn lemma_normalize_makes_valid<T: PartialOrd + Copy>(r: RectBase<T>)
    requires
        comparable(r.x1, r.x2),
        comparable(r.y1, r.y2),
    ensures
        r.normalized().valid_spec(),
{
}

/// A point lies in the intersection of two integer rectangles exactly when it
/// lies in both.
pub proof fn lemma_clip_is_intersection(a: RectI, b: RectI, x: i32, y: i32)
    ensures
        a.clipped(b).contains_spec(x, y) == (a.contains_spec(x, y) && b.contains_spec(x, y)),
{
    lemma_i32_order(a.x1, b.x1);
    lemma_i32_order(a.x2, b.x2);
    lemma_i32_order(a.y1, b.y1);
    lemma_i32_order(a.y2, b.y2);
    let c = a.clipped(b);
    lemma_i32_order(x, c.x1);
    lemma_i32_order(c.x2, x);
    lemma_i32_order(y, c.y1);
    lemma_i32_order(c.y2, y);
    lemma_i32_order(x, a.x1);
    lemma_i32_order(a.x2, x);
    lemma_i32_order(y, a.y1);
    lemma_i32_order(a.y2, y);
    lemma_i32_order(x, b.x1);
    lemma_i32_order(b.x2, x);
    lemma_i32_order(y, b.y1);
    lemma_i32_order(b.y2, y);
    lemma_i32_order(x, c.x2);
    lemma_i32_order(y, c.y2);
}

/// The union of two integer rectangles holds every point of each of them.
pub proof fn lemma_unite_covers(a: RectI, b: RectI, x: i32, y: i32)
    requires
        a.contains_spec(x, y) || b.contains_spec(x, y),
    ensures
        a.united(b).contains_spec(x, y),
{
    lemma_i32_order(a.x1, b.x1);
    lemma_i32_order(a.x2, b.x2);
    lemma_i32_order(a.y1, b.y1);
    lemma_i32_order(a.y2, b.y2);
    let c = a.united(b);
    lemma_i32_order(x, c.x1);
    lemma_i32_order(x, c.x2);
    lemma_i32_order(y, c.y1);
    lemma_i32_order(y, c.y2);
    lemma_i32_order(x, a.x1);
    lemma_i32_order(x, a.x2);
    lemma_i32_order(y, a.y1);
    lemma_i32_order(y, a.y2);
    lemma_i32_order(x, b.x1);
    lemma_i32_order(x, b.x2);
    lemma_i32_order(y, b.y1);
    lemma_i32_order(y, b.y2);
}

//---------------------------------------------------------Path Commands
pub const PATH_CMD_STOP: u32 = 0;

pub const PATH_CMD_MOVE_TO: u32 = 1;

pub const PATH_CMD_LINE_TO: u32 = 2;

pub const PATH_CMD_CURVE3: u32 = 3;

pub const PATH_CMD_CURVE4: u32 = 4;

pub const PATH_CMD_CURVE_N: u32 = 5;

pub const PATH_CMD_CATROM: u32 = 6;

pub const PATH_CMD_UBSPLINE: u32 = 7;

pub const PATH_CMD_END_POLY: u32 = 0x0F;

#[derive(Clone, Copy, PartialEq, Eq, Structural)]
pub enum PathCmd {
    Stop,
    MoveTo,
    LineTo,
    Curve3,
    Curve4,
    CurveN,
    Catrom,
    Ubspline,
    EndPoly,
}

impl PathCmd {
    pub open spec fn spec_value(self) -> u32 {
        match self {
            PathCmd::Stop => PATH_CMD_STOP,
            PathCmd::MoveTo => PATH_CMD_MOVE_TO,
            PathCmd::LineTo => PATH_CMD_LINE_TO,
            PathCmd::Curve3 => PATH_CMD_CURVE3,
            PathCmd::Curve4 => PATH_CMD_CURVE4,
            PathCmd::CurveN => PATH_CMD_CURVE_N,
            PathCmd::Catrom => PATH_CMD_CATROM,
            PathCmd::Ubspline => PATH_CMD_UBSPLINE,
            PathCmd::EndPoly => PATH_CMD_END_POLY,
        }
    }

    /// The command's code in a vertex's command word.
    pub fn value(&self) -> (r: u32)
        ensures
            r == self.spec_value(),
    {
        match self {
            PathCmd::Stop => PATH_CMD_STOP,
            PathCmd::MoveTo => PATH_CMD_MOVE_TO,
            PathCmd::LineTo => PATH_CMD_LINE_TO,
            PathCmd::Curve3 => PATH_CMD_CURVE3,
            PathCmd::Curve4 => PATH_CMD_CURVE4,
            PathCmd::CurveN => PATH_CMD_CURVE_N,
            PathCmd::Catrom => PATH_CMD_CATROM,
            PathCmd::Ubspline => PATH_CMD_UBSPLINE,
            PathCmd::EndPoly => PATH_CMD_END_POLY,
        }
    }
}

pub const PATH_FLAGS_NONE: u32 = 0;

pub const PATH_FLAGS_CCW: u32 = 0x10;

pub const PATH_FLAGS_CW: u32 = 0x20;

pub const PATH_FLAGS_CLOSE: u32 = 0x40;

pub const PATH_FLAGS_MASK: u32 = 0xF0;

#[derive(Clone, Copy, PartialEq, Eq, Structural)]
pub enum PathFlag {
    NoFlags,
    Ccw,
    Cw,
    Close,
    Mask,
}

impl PathFlag {
    pub open spec fn spec_value(self) -> u32 {
        match self {
            PathFlag::NoFlags => PATH_FLAGS_NONE,
            PathFlag::Ccw => PATH_FLAGS_CCW,
            PathFlag::Cw => PATH_FLAGS_CW,
            PathFlag::Close => PATH_FLAGS_CLOSE,
            PathFlag::Mask => PATH_FLAGS_MASK,
        }
    }

    /// The flag's bits in a vertex's command word.
    pub fn value(&self) -> (r: u32)
        ensures
            r == self.spec_value(),
    {
        match self {
            PathFlag::NoFlags => PATH_FLAGS_NONE,
            PathFlag::Ccw => PATH_FLAGS_CCW,
            PathFlag::Cw => PATH_FLAGS_CW,
            PathFlag::Close => PATH_FLAGS_CLOSE,
            PathFlag::Mask => PATH_FLAGS_MASK,
        }
    }
}

/// The orientation mask is made of the two orientation flags.
proof fn lemma_orientation_mask()
    ensures
        PATH_FLAGS_CW | PATH_FLAGS_CCW == 0x30u32,
        PATH_CMD_END_POLY | PATH_FLAGS_CLOSE == 0x4Fu32,
{
    assert(0x20u32 | 0x10u32 == 0x30u32 && 0x0Fu32 | 0x40u32 == 0x4Fu32) by (bit_vector);
}

/// Bits of the close flag: setting it keeps an end of polygon one, and
/// `0x4F` is a closed end of polygon while `stop` and `move_to` end none.
pub proof fn lemma_close_flag_bits(c: u32)
    by (bit_vector)
    ensures
        (c | 0x40u32) & 0x40u32 != 0,
        c & 0x0Fu32 == 0x0Fu32 ==> (c | 0x40u32) & 0x0Fu32 == 0x0Fu32,
        0x0Fu32 | 0x40u32 == 0x4Fu32,
        0x4Fu32 & 0x40u32 != 0,
        0x4Fu32 & 0x0Fu32 == 0x0Fu32,
        0u32 & 0x0Fu32 != 0x0Fu32,
        1u32 & 0x0Fu32 != 0x0Fu32,
{
}

/// The command word ends a polygon.
pub open spec fn end_poly_spec(c: u32) -> bool {
    c & 0x0F == 0x0F
}

/// The orientation bits of a command word.
pub open spec fn orientation_spec(c: u32) -> u32 {
    c & 0x30
}

/// The command word without its orientation bits.
pub open spec fn unoriented_spec(c: u32) -> u32 {
    c & !0x30u32
}

/// The command word closes a polygon.
pub open spec fn close_spec(c: u32) -> bool {
    c & !0x30u32 == 0x4F
}

//---------------------------------------------------------------is_vertex
pub fn is_vertex(c: u32) -> (r: bool)
    ensures
        r == (PATH_CMD_MOVE_TO <= c < PATH_CMD_END_POLY),
{
    return c >= PATH_CMD_MOVE_TO && c < PATH_CMD_END_POLY;
}

//--------------------------------------------------------------is_drawing
pub fn is_drawing(c: u32) -> (r: bool)
    ensures
        r == (PATH_CMD_LINE_TO <= c < PATH_CMD_END_POLY),
{
    return c >= PATH_CMD_LINE_TO && c < PATH_CMD_END_POLY;
}

//-----------------------------------------------------------------is_stop
pub fn is_stop(c: u32) -> (r: bool)
    ensures
        r == (c == PATH_CMD_STOP),
{
    return c == PATH_CMD_STOP;
}

//--------------------------------------------------------------is_move_to
pub fn is_move_to(c: u32) -> (r: bool)
    ensures
        r == (c == PATH_CMD_MOVE_TO),
{
    return c == PATH_CMD_MOVE_TO;
}

//--------------------------------------------------------------is_line_to
pub fn is_line_to(c: u32) -> (r: bool)
    ensures
        r == (c == PATH_CMD_LINE_TO),
{
    return c == PATH_CMD_LINE_TO;
}

//----------------------------------------------------------------is_curve
pub fn is_curve(c: u32) -> (r: bool)
    ensures
        r == (c == PATH_CMD_CURVE3 || c == PATH_CMD_CURVE4),
{
    return c == PATH_CMD_CURVE3 || c == PATH_CMD_CURVE4;
}

//---------------------------------------------------------------is_curve3
pub fn is_curve3(c: u32) -> (r: bool)
    ensures
        r == (c == PATH_CMD_CURVE3),
{
    return c == PATH_CMD_CURVE3;
}

//---------------------------------------------------------------is_curve4
pub fn is_curve4(c: u32) -> (r: bool)
    ensures
        r == (c == PATH_CMD_CURVE4),
{
    return c == PATH_CMD_CURVE4;
}

//-------------------------------------------------------------is_end_poly
pub fn is_end_poly(c: u32) -> (r: bool)
    ensures
        r == end_poly_spec(c),
{
    return (c & PATH_CMD_END_POLY) == PATH_CMD_END_POLY;
}

//----------------------------------------------------------------is_close
pub fn is_close(c: u32) -> (r: bool)
    ensures
        r == close_spec(c),
{
    proof {
        lemma_orientation_mask();
    }
    return (c & !(PATH_FLAGS_CW | PATH_FLAGS_CCW)) == (PATH_CMD_END_POLY | PATH_FLAGS_CLOSE);
}

//------------------------------------------------------------is_next_poly
pub fn is_next_poly(c: u32) -> (r: bool)
    ensures
        r == (c == PATH_CMD_STOP || c == PATH_CMD_MOVE_TO || end_poly_spec(c)),
{
    return is_stop(c) || is_move_to(c) || is_end_poly(c);
}

//-------------------------------------------------------------------is_cw
pub fn is_cw(c: u32) -> (r: bool)
    ensures
        r == (c & 0x20 != 0),
{
    return (c & PATH_FLAGS_CW) != 0;
}

//------------------------------------------------------------------is_ccw
pub fn is_ccw(c: u32) -> (r: bool)
    ensures
        r == (c & 0x10 != 0),
{
    return (c & PATH_FLAGS_CCW) != 0;
}

//-------------------------------------------------------------is_oriented
pub fn is_oriented(c: u32) -> (r: bool)
    ensures
        r == (orientation_spec(c) != 0),
{
    proof {
        lemma_orientation_mask();
    }
    return (c & (PATH_FLAGS_CW | PATH_FLAGS_CCW)) != 0;
}

//---------------------------------------------------------------is_closed
pub fn is_closed(c: u32) -> (r: bool)
    ensures
        r == (c & 0x40 != 0),
{
    return (c & PATH_FLAGS_CLOSE) != 0;
}

//----------------------------------------------------------get_close_flag
pub fn get_close_flag(c: u32) -> (r: u32)
    ensures
        r == c & 0x40,
{
    return c & PATH_FLAGS_CLOSE;
}

//-------------------------------------------------------clear_orientation
pub fn clear_orientation(c: u32) -> (r: u32)
    ensures
        r == unoriented_spec(c),
{
    proof {
        lemma_orientation_mask();
    }
    return c & !(PATH_FLAGS_CW | PATH_FLAGS_CCW);
}

//---------------------------------------------------------get_orientation
pub fn get_orientation(c: u32) -> (r: u32)
    ensures
        r == orientation_spec(c),
{
    proof {
        lemma_orientation_mask();
    }
    return c & (PATH_FLAGS_CW | PATH_FLAGS_CCW);
}

//---------------------------------------------------------set_orientation
pub fn set_orientation(c: u32, o: u32) -> (r: u32)
    ensures
        r == unoriented_spec(c) | o,
{
    return clear_orientation(c) | o;
}

/// Setting an orientation flag and reading it back gives that flag; the rest
/// of the command word is untouched; clearing removes every orientation bit.
pub proof fn lemma_orientation_round_trip(c: u32, o: u32)
    requires
        o == PATH_FLAGS_NONE || o == PATH_FLAGS_CW || o == PATH_FLAGS_CCW,
    ensures
        orientation_spec(unoriented_spec(c) | o) == o,
        unoriented_spec(unoriented_spec(c) | o) == unoriented_spec(c),
        orientation_spec(unoriented_spec(c)) == 0,
        unoriented_spec(unoriented_spec(c)) == unoriented_spec(c),
{
    assert((((c & !0x30u32) | o) & 0x30u32) == o && (((c & !0x30u32) | o) & !0x30u32) == (c
        & !0x30u32) && ((c & !0x30u32) & 0x30u32) == 0u32 && ((c & !0x30u32) & !0x30u32) == (c
        & !0x30u32)) by (bit_vector)
        requires
            o == 0u32 || o == 0x20u32 || o == 0x10u32,
    ;
}

/// A closing command also ends its polygon and carries the close flag,
/// whatever its orientation.
pub proof fn lemma_close_ends_poly(c: u32)
    requires
        close_spec(c),
    ensures
        end_poly_spec(c),
        c & 0x40 != 0,
        close_spec(unoriented_spec(c)),
{
    assert((c & !0x30u32) == 0x4Fu32 ==> (c & 0x0Fu32) == 0x0Fu32 && (c & 0x40u32) != 0u32
        && ((c & !0x30u32) & !0x30u32) == 0x4Fu32) by (bit_vector);
}

//--------------------------------------------------------------PointBase
#[derive(Clone, Copy, PartialEq, Eq)]
pub struct PointBase<T> {
    pub x: T,
    pub y: T,
}

impl<T> Point for PointBase<T> {
    type T = T;

    fn new(x_: T, y_: T) -> (r: Self)
        ensures
            r.x == x_ && r.y == y_,
    {
        Self { x: x_, y: y_ }
    }
}

pub type PointI = PointBase<i32>;

//-------------------------------------------------------------VertexBase
pub struct VertexBase<T> {
    pub x: T,
    pub y: T,
    pub cmd: u32,
}

impl<T> VertexBase<T> {
    pub fn new(x_: T, y_: T, cmd_: u32) -> (r: Self)
        ensures
            r.x == x_ && r.y == y_ && r.cmd == cmd_,
    {
        Self { x: x_, y: y_, cmd: cmd_ }
    }
}

pub type VertexI = VertexBase<i32>;

} // verus!
