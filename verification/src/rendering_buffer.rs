//! A buffer of pixel rows held in one byte vector.
use crate::RenderBuffer;
use vstd::prelude::*;

verus! {

/// `|s|`, for a stride that is not `i32::MIN`.
pub open spec fn abs_stride(s: i32) -> int {
    if s < 0 {
        -s
    } else {
        s as int
    }
}

/// The offset of row `y` in a buffer of `height` rows: rows follow each
/// other `stride` bytes apart, from the top with a positive stride and from
/// the bottom with a negative one.
pub open spec fn row_offset(height: u32, stride: i32, y: int) -> int {
    if stride >= 0 {
        y * stride
    } else {
        (height - 1 - y) * abs_stride(stride)
    }
}

/// `height` rows of `width` pixels, each row taking `|stride|` bytes of one
/// byte vector.
pub struct RenderBuf {
    buf: Vec<u8>,
    width: u32,
    height: u32,
    stride: i32,
}

impl RenderBuf {
    /// The bytes of the buffer.
    pub closed spec fn bytes(&self) -> Seq<u8> {
        self.buf@
    }

    /// Width and height in pixels, and the stride in bytes.
    pub closed spec fn dims(&self) -> (u32, u32, i32) {
        (self.width, self.height, self.stride)
    }

    /// The byte vector holds all the rows.
    pub open spec fn wf(&self) -> bool {
        &&& self.dims().2 != i32::MIN
        &&& self.dims().1 * abs_stride(self.dims().2) <= self.bytes().len()
    }

    /// The offset of row `y`.
    pub open spec fn row_start(&self, y: int) -> int {
        row_offset(self.dims().1, self.dims().2, y)
    }

    /// Rows over `buf`; `None` where `buf` cannot hold them all.
    pub fn new(buf: Vec<u8>, width: u32, height: u32, stride: i32) -> (r: Option<RenderBuf>)
        ensures
            r is Some <==> (stride != i32::MIN && height * abs_stride(stride) <= buf@.len()),
            r matches Some(rb) ==> rb.wf() && rb.bytes() == buf@ && rb.dims() == (width, height, stride),
    {
        if stride == i32::MIN {
            return None;
        }
        let s: u64 = if stride < 0 {
            (-stride) as u64
        } else {
            stride as u64
        };
        assert(height as u64 * s <= 0xFFFF_FFFF * 0x8000_0000u64) by (nonlinear_arith)
            requires
                s <= 0x8000_0000u64,
        ;
        let need: u64 = height as u64 * s;
        if need > buf.len() as u64 {
            return None;
        }
        Some(RenderBuf { buf: buf, width: width, height: height, stride: stride })
    }

    /// The offset of row `y`.
    pub fn row_offset(&self, y: u32) -> (r: usize)
        requires
            self.wf(),
            y < self.dims().1,
        ensures
            r == self.row_start(y as int),
            r + abs_stride(self.dims().2) <= self.bytes().len(),
            self.bytes().len() <= usize::MAX,
    {
        let h = self.height;
        let s: usize = if self.stride < 0 {
            (-self.stride) as usize
        } else {
            self.stride as usize
        };
        let k: usize = if self.stride >= 0 {
            y as usize
        } else {
            (h - 1 - y) as usize
        };
        let n = self.buf.len();
        assert(s == abs_stride(self.stride));
        assert(h * s <= n);
        assert(k * s + s <= self.buf@.len()) by (nonlinear_arith)
            requires
                k < h,
                h * s <= self.buf@.len(),
        ;
        k * s
    }

    /// All the bytes.
    pub fn as_bytes(&self) -> (r: &[u8])
        ensures
            r@ == self.bytes(),
    {
        self.buf.as_slice()
    }

    /// The byte at `pos`.
    pub fn byte_at(&self, pos: usize) -> (r: u8)
        requires
            pos < self.bytes().len(),
        ensures
            r == self.bytes()[pos as int],
    {
        self.buf[pos]
    }

    /// Writes byte `v` at `pos`.
    pub fn set_byte(&mut self, pos: usize, v: u8)
        requires
            pos < old(self).bytes().len(),
        ensures
            final(self).bytes() == old(self).bytes().update(pos as int, v),
            final(self).dims() == old(self).dims(),
    {
        self.buf.set(pos, v);
    }
}

/// Each row of a well-formed buffer lies inside its bytes.
pub proof fn lemma_row_fits(rb: RenderBuf, y: int)
    requires
        rb.wf(),
        0 <= y < rb.dims().1,
    ensures
        0 <= rb.row_start(y),
        rb.row_start(y) + abs_stride(rb.dims().2) <= rb.bytes().len(),
{
    let s = abs_stride(rb.dims().2);
    let h = rb.dims().1 as int;
    let k = if rb.dims().2 >= 0 {
        y
    } else {
        h - 1 - y
    };
    assert(0 <= k < h);
    assert(k * s + s <= h * s && 0 <= k * s) by (nonlinear_arith)
        requires
            0 <= k < h,
            s >= 0,
    ;
}

/// Distinct rows of a buffer lie at distinct, non-overlapping offsets.
pub proof fn lemma_rows_disjoint(height: u32, stride: i32, y1: int, y2: int)
    requires
        stride != i32::MIN,
        0 <= y1 < y2 < height,
    ensures
        row_offset(height, stride, y1) + abs_stride(stride) <= row_offset(height, stride, y2)
            || row_offset(height, stride, y2) + abs_stride(stride) <= row_offset(height, stride, y1),
{
    let s = abs_stride(stride);
    assert(y1 * s + s <= y2 * s) by (nonlinear_arith)
        requires
            y1 < y2,
            s >= 0,
    ;
    assert((height - 1 - y2) * s + s <= (height - 1 - y1) * s) by (nonlinear_arith)
        requires
            y1 < y2,
            s >= 0,
    ;
}

impl RenderBuffer for RenderBuf {
    type T = u8;

    fn attach(&mut self, buf: Vec<u8>, width: u32, height: u32, stride: i32)
        ensures
            final(self).bytes() == buf@,
            final(self).dims() == (width, height, stride),
    {
        self.buf = buf;
        self.width = width;
        self.height = height;
        self.stride = stride;
    }

    fn width(&self) -> (r: u32)
        ensures
            r == self.dims().0,
    {
        self.width
    }

    fn height(&self) -> (r: u32)
        ensures
            r == self.dims().1,
    {
        self.height
    }

    fn stride(&self) -> (r: i32)
        ensures
            r == self.dims().2,
    {
        self.stride
    }

    fn stride_abs(&self) -> (r: u32)
        ensures
            r == abs_stride(self.dims().2) as u32,
    {
        if self.stride < 0 {
            (-(self.stride as i64)) as u32
        } else {
            self.stride as u32
        }
    }
}

} // verus!
