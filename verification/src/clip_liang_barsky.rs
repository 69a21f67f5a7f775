//! Clipping codes of the Cyrus-Beck / Liang-Barsky line clipping.
use crate::basics::RectBase;
use crate::order::{is_greater, is_less, ordered};
use vstd::prelude::*;

verus! {

pub const CF_X1_CLIPPED: u32 = 4;

pub const CF_X2_CLIPPED: u32 = 1;

pub const CF_Y1_CLIPPED: u32 = 8;

pub const CF_Y2_CLIPPED: u32 = 2;

pub const CF_X_CLIPPED: u32 = 5;

pub const CF_Y_CLIPPED: u32 = 10;

/// `bit` when `b` holds, else nothing.
pub open spec fn flag(b: bool, bit: u32) -> u32 {
    if b {
        bit
    } else {
        0
    }
}

/// The clipping code of a vertex against a box:
///
/// ```text
///        |        |
///  0110  |  0010  | 0011
///        |        |
/// -------+--------+-------- clip_box.y2
///        |        |
///  0100  |  0000  | 0001
///        |        |
/// -------+--------+-------- clip_box.y1
///        |        |
///  1100  |  1000  | 1001
///        |        |
///  clip_box.x1  clip_box.x2
/// ```
pub open spec fn clipping_code<T: PartialOrd + Copy>(x: T, y: T, b: RectBase<T>) -> u32 {
    (flag(is_greater(x, b.x2), CF_X2_CLIPPED) + flag(is_greater(y, b.y2), CF_Y2_CLIPPED) + flag(
        is_less(x, b.x1),
        CF_X1_CLIPPED,
    ) + flag(is_less(y, b.y1), CF_Y1_CLIPPED)) as u32
}

pub fn clipping_flags<T: Copy + PartialOrd>(x: T, y: T, clip_box: &RectBase<T>) -> (r: u32)
    ensures
        ordered::<T>() ==> r == clipping_code(x, y, *clip_box),
        r < 16,
{
    let mut f: u32 = 0;
    if x > clip_box.x2 {
        f = f + CF_X2_CLIPPED;
    }
    if y > clip_box.y2 {
        f = f + CF_Y2_CLIPPED;
    }
    if x < clip_box.x1 {
        f = f + CF_X1_CLIPPED;
    }
    if y < clip_box.y1 {
        f = f + CF_Y1_CLIPPED;
    }
    f
}

pub fn clipping_flags_x<T: Copy + PartialOrd>(x: T, clip_box: &RectBase<T>) -> (r: u32)
    ensures
        ordered::<T>() ==> r == flag(is_greater(x, clip_box.x2), CF_X2_CLIPPED) + flag(
            is_less(x, clip_box.x1),
            CF_X1_CLIPPED,
        ),
        r < 16,
{
    let mut f: u32 = 0;
    if x > clip_box.x2 {
        f = f + CF_X2_CLIPPED;
    }
    if x < clip_box.x1 {
        f = f + CF_X1_CLIPPED;
    }
    f
}

pub fn clipping_flags_y<T: Copy + PartialOrd>(y: T, clip_box: &RectBase<T>) -> (r: u32)
    ensures
        ordered::<T>() ==> r == flag(is_greater(y, clip_box.y2), CF_Y2_CLIPPED) + flag(
            is_less(y, clip_box.y1),
            CF_Y1_CLIPPED,
        ),
        r < 16,
{
    let mut f: u32 = 0;
    if y > clip_box.y2 {
        f = f + CF_Y2_CLIPPED;
    }
    if y < clip_box.y1 {
        f = f + CF_Y1_CLIPPED;
    }
    f
}

/// A point inside the box has code zero, and on a valid integer box a point
/// can be past at most one side in each direction.
pub proof fn lemma_clipping_code(x: i32, y: i32, b: RectBase<i32>)
    requires
        b.x1 <= b.x2,
        b.y1 <= b.y2,
    ensures
        (clipping_code(x, y, b) == 0) == (b.x1 <= x <= b.x2 && b.y1 <= y <= b.y2),
        clipping_code(x, y, b) != 5 && clipping_code(x, y, b) != 10,
{
    crate::order::lemma_i32_order(x, b.x2);
    crate::order::lemma_i32_order(x, b.x1);
    crate::order::lemma_i32_order(y, b.y2);
    crate::order::lemma_i32_order(y, b.y1);
}

/// The x part of a clipping code is what `clipping_flags_x` gives, and the
/// y part what `clipping_flags_y` gives, whatever the other coordinate.
pub proof fn lemma_clipping_code_parts<T: PartialOrd + Copy>(x: T, y: T, b: RectBase<T>)
    ensures
        clipping_code(x, y, b) & CF_X_CLIPPED == flag(is_greater(x, b.x2), CF_X2_CLIPPED) + flag(
            is_less(x, b.x1),
            CF_X1_CLIPPED,
        ),
        clipping_code(x, y, b) & CF_Y_CLIPPED == flag(is_greater(y, b.y2), CF_Y2_CLIPPED) + flag(
            is_less(y, b.y1),
            CF_Y1_CLIPPED,
        ),
{
    lemma_flag_bits(is_greater(x, b.x2), is_greater(y, b.y2), is_less(x, b.x1), is_less(y, b.y1));
}

proof fn lemma_flag_bits(a: bool, b: bool, c: bool, d: bool)
    by (bit_vector)
    ensures
        (((if a { 1u32 } else { 0u32 }) + (if b { 2u32 } else { 0u32 }) + (if c { 4u32 } else { 0u32 }) + (if d { 8u32 } else { 0u32 })) as u32) & 5u32
            == (if a { 1u32 } else { 0u32 }) + (if c { 4u32 } else { 0u32 }),
        (((if a { 1u32 } else { 0u32 }) + (if b { 2u32 } else { 0u32 }) + (if c { 4u32 } else { 0u32 }) + (if d { 8u32 } else { 0u32 })) as u32) & 10u32
            == (if b { 2u32 } else { 0u32 }) + (if d { 8u32 } else { 0u32 }),
{
}

} // verus!
