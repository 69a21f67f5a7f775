//! The decomposition of a glyph bitmap, as FreeType renders it, into the
//! cells of scanlines: one bit per pixel (mono) or one byte per pixel
//! (gray). Each cell is `(y, x, cover)`; the cells of one row come
//! together, left to right, and rows come in the order they are rendered.
use crate::bitset_iterator::{index_mask, BitsetIterator};
use vstd::prelude::*;

verus! {

/// A glyph bitmap: `rows` rows of `width` pixels, row `i` starting at byte
/// `i * pitch` of `buffer`.
pub struct FtBitmap {
    pub buffer: Vec<u8>,
    pub rows: i32,
    pub width: i32,
    pub pitch: i32,
}

/// A cell of a scanline: its row, its column and its cover.
pub type Cell = (i32, i32, u32);

/// The byte where the `i`-th row read starts: rows are read from the last
/// one up when `flip` is set.
pub open spec fn row_start(pitch: int, rows: int, i: int, flip: bool) -> int {
    if flip {
        (rows - 1 - i) * pitch
    } else {
        i * pitch
    }
}

/// The scanline of the `i`-th row read: counted down from `y`, or from
/// `y + rows` when `flip` is set.
pub open spec fn row_y(y: int, rows: int, i: int, flip: bool) -> int {
    (if flip {
        y + rows
    } else {
        y
    }) - i - 1
}

/// The first `j` pixels of a one-bit row starting at byte `start`: a full
/// cell at each set bit.
pub open spec fn mono_row_cells(bytes: Seq<u8>, start: int, x: int, yr: int, j: nat) -> Seq<Cell>
    decreases j,
{
    if j == 0 {
        Seq::empty()
    } else {
        let k = (j - 1) as nat;
        mono_row_cells(bytes, start, x, yr, k) + if bytes[start + k / 8] & index_mask(k % 8) != 0 {
            seq![(yr as i32, (x + k) as i32, 255u32)]
        } else {
            Seq::empty()
        }
    }
}

/// The cells of the first `n` rows read of a one-bit bitmap.
pub open spec fn mono_cells(bm: &FtBitmap, x: int, y: int, flip: bool, n: nat) -> Seq<Cell>
    decreases n,
{
    if n == 0 {
        Seq::empty()
    } else {
        let i = (n - 1) as nat;
        mono_cells(bm, x, y, flip, i) + mono_row_cells(
            bm.buffer@,
            row_start(bm.pitch as int, bm.rows as int, i as int, flip),
            x,
            row_y(y, bm.rows as int, i as int, flip),
            bm.width as nat,
        )
    }
}

/// The cells of a one-byte row starting at byte `start`: every pixel, its
/// cover the gamma of its byte.
pub open spec fn gray_row_cells(
    bytes: Seq<u8>,
    start: int,
    x: int,
    yr: int,
    gamma: Seq<u32>,
    width: nat,
) -> Seq<Cell> {
    Seq::new(width, |k: int| (yr as i32, (x + k) as i32, gamma[bytes[start + k] as int]))
}

/// The cells of the first `n` rows read of a one-byte bitmap.
pub open spec fn gray_cells(bm: &FtBitmap, x: int, y: int, flip: bool, gamma: Seq<u32>, n: nat) -> Seq<
    Cell,
>
    decreases n,
{
    if n == 0 {
        Seq::empty()
    } else {
        let i = (n - 1) as nat;
        gray_cells(bm, x, y, flip, gamma, i) + gray_row_cells(
            bm.buffer@,
            row_start(bm.pitch as int, bm.rows as int, i as int, flip),
            x,
            row_y(y, bm.rows as int, i as int, flip),
            gamma,
            bm.width as nat,
        )
    }
}

/// The bitmap can be walked: its rows of `row_len` bytes lie in the
/// buffer, and the columns and scanlines stay within `i32`.
pub open spec fn bitmap_ok(bm: &FtBitmap, x: int, y: int, flip: bool, row_len: int) -> bool {
    &&& bm.rows >= 0
    &&& bm.width >= 0
    &&& x + bm.width <= i32::MAX
    &&& flip ==> i32::MIN <= bm.pitch * (bm.rows - 1) <= i32::MAX
    &&& flip ==> y + bm.rows <= i32::MAX
    &&& row_y(y, bm.rows as int, bm.rows - 1, flip) >= i32::MIN
    &&& forall|i: int|
        0 <= i < bm.rows ==> 0 <= #[trigger] row_start(bm.pitch as int, bm.rows as int, i, flip)
            && row_start(bm.pitch as int, bm.rows as int, i, flip) + row_len <= bm.buffer@.len()
}

/// The byte where row `i` starts, computed without overflow.
fn row_start_exec(bm: &FtBitmap, i: i32, flip: bool, row_len: Ghost<int>) -> (r: usize)
    requires
        0 <= i < bm.rows,
        row_len@ >= 0,
        forall|k: int|
            0 <= k < bm.rows ==> 0 <= #[trigger] row_start(bm.pitch as int, bm.rows as int, k, flip)
                && row_start(bm.pitch as int, bm.rows as int, k, flip) + row_len@ <= bm.buffer@.len(),
    ensures
        r == row_start(bm.pitch as int, bm.rows as int, i as int, flip),
{
    let k: i64 = if flip {
        (bm.rows - 1 - i) as i64
    } else {
        i as i64
    };
    assert(0 <= k < 0x8000_0000);
    assert(-0x8000_0000 <= bm.pitch < 0x8000_0000);
    assert(-0x4000_0000_0000_0000 <= k * bm.pitch <= 0x4000_0000_0000_0000) by (nonlinear_arith)
        requires
            0 <= k < 0x8000_0000,
            -0x8000_0000 <= bm.pitch < 0x8000_0000,
    ;
    let s: i64 = k * bm.pitch as i64;
    assert(s == row_start(bm.pitch as int, bm.rows as int, i as int, flip));
    let _len: usize = bm.buffer.len();
    assert(0 <= row_start(bm.pitch as int, bm.rows as int, i as int, flip));
    s as usize
}

/// Appends to `cells` the cells of a one-bit bitmap placed at `(x, y)`:
/// a full cell at each set bit, row by row.
pub fn decompose_ft_bitmap_mono(bitmap: &FtBitmap, x: i32, y: i32, flip_y: bool, cells: &mut Vec<Cell>)
    requires
        bitmap_ok(bitmap, x as int, y as int, flip_y, (bitmap.width + 7) / 8),
    ensures
        final(cells)@ == old(cells)@ + mono_cells(bitmap, x as int, y as int, flip_y, bitmap.rows as nat),
{
    let yy: i32 = if flip_y {
        y + bitmap.rows
    } else {
        y
    };
    let nbytes: usize = ((bitmap.width as u32 + 7) / 8) as usize;
    let mut i: i32 = 0;
    while i < bitmap.rows
        invariant
            0 <= i <= bitmap.rows,
            bitmap_ok(bitmap, x as int, y as int, flip_y, (bitmap.width + 7) / 8),
            nbytes == (bitmap.width + 7) / 8,
            yy == (if flip_y {
                y + bitmap.rows
            } else {
                y as int
            }),
            cells@ == old(cells)@ + mono_cells(bitmap, x as int, y as int, flip_y, i as nat),
        decreases bitmap.rows - i,
    {
        let start = row_start_exec(bitmap, i, flip_y, Ghost((bitmap.width + 7) / 8));
        let _len: usize = bitmap.buffer.len();
        let ghost s0 = cells@;
        let yr: i32 = yy - i - 1;
        let mut row: Vec<u8> = Vec::new();
        let mut k: usize = 0;
        while k < nbytes
            invariant
                k <= nbytes,
                start + nbytes <= bitmap.buffer@.len(),
                bitmap.buffer@.len() <= usize::MAX,
                row@ == bitmap.buffer@.subrange(start as int, start + k),
            decreases nbytes - k,
        {
            row.push(bitmap.buffer[start + k]);
            k += 1;
        }
        let mut bits = BitsetIterator::new(row.as_slice(), 0);
        let mut j: i32 = 0;
        while j < bitmap.width
            invariant
                0 <= j <= bitmap.width,
                x + bitmap.width <= i32::MAX,
                bits.wf(),
                bits.bytes() == row@,
                bits.position() == j,
                row@.len() == nbytes,
                nbytes == (bitmap.width + 7) / 8,
                start + nbytes <= bitmap.buffer@.len(),
                row@ == bitmap.buffer@.subrange(start as int, start + nbytes),
                cells@ == s0 + mono_row_cells(bitmap.buffer@, start as int, x as int, yr as int, j as nat),
            decreases bitmap.width - j,
        {
            let b = bits.bit();
            let ghost jj = j as nat;
            assert(jj / 8 < nbytes) by (nonlinear_arith)
                requires
                    jj < bitmap.width,
                    nbytes == (bitmap.width + 7) / 8,
            ;
            assert(row@[(jj / 8) as int] == bitmap.buffer@[start + jj / 8]);
            if b != 0 {
                cells.push((yr, x + j, 255u32));
            }
            proof {
                let extra = if bitmap.buffer@[start + jj / 8] & index_mask(jj % 8) != 0 {
                    seq![(yr, (x + j) as i32, 255u32)]
                } else {
                    Seq::<Cell>::empty()
                };
                assert(mono_row_cells(bitmap.buffer@, start as int, x as int, yr as int, jj + 1)
                    == mono_row_cells(bitmap.buffer@, start as int, x as int, yr as int, jj) + extra);
                assert(cells@ =~= s0 + mono_row_cells(bitmap.buffer@, start as int, x as int, yr as int, jj + 1));
            }
            bits.inc();
            j += 1;
        }
        assert(cells@ =~= old(cells)@ + mono_cells(bitmap, x as int, y as int, flip_y, (i + 1) as nat));
        i += 1;
    }
}

/// Appends to `cells` the cells of a one-byte bitmap placed at `(x, y)`:
/// every pixel, its cover the `gamma` of its byte, row by row.
pub fn decompose_ft_bitmap_gray8(
    bitmap: &FtBitmap,
    x: i32,
    y: i32,
    flip_y: bool,
    gamma: &[u32],
    cells: &mut Vec<Cell>,
)
    requires
        gamma@.len() >= 256,
        bitmap_ok(bitmap, x as int, y as int, flip_y, bitmap.width as int),
    ensures
        final(cells)@ == old(cells)@ + gray_cells(
            bitmap,
            x as int,
            y as int,
            flip_y,
            gamma@,
            bitmap.rows as nat,
        ),
{
    let yy: i32 = if flip_y {
        y + bitmap.rows
    } else {
        y
    };
    let mut i: i32 = 0;
    while i < bitmap.rows
        invariant
            0 <= i <= bitmap.rows,
            gamma@.len() >= 256,
            bitmap_ok(bitmap, x as int, y as int, flip_y, bitmap.width as int),
            yy == (if flip_y {
                y + bitmap.rows
            } else {
                y as int
            }),
            cells@ == old(cells)@ + gray_cells(bitmap, x as int, y as int, flip_y, gamma@, i as nat),
        decreases bitmap.rows - i,
    {
        let start = row_start_exec(bitmap, i, flip_y, Ghost(bitmap.width as int));
        let _len: usize = bitmap.buffer.len();
        let ghost s0 = cells@;
        let yr: i32 = yy - i - 1;
        let mut j: i32 = 0;
        while j < bitmap.width
            invariant
                0 <= j <= bitmap.width,
                x + bitmap.width <= i32::MAX,
                gamma@.len() >= 256,
                start + bitmap.width <= bitmap.buffer@.len(),
                bitmap.buffer@.len() <= usize::MAX,
                cells@ == s0 + gray_row_cells(bitmap.buffer@, start as int, x as int, yr as int, gamma@, j as nat),
            decreases bitmap.width - j,
        {
            let v = bitmap.buffer[start + j as usize];
            cells.push((yr, x + j, gamma[v as usize]));
            assert(cells@ =~= s0 + gray_row_cells(
                bitmap.buffer@,
                start as int,
                x as int,
                yr as int,
                gamma@,
                (j + 1) as nat,
            ));
            j += 1;
        }
        assert(cells@ =~= old(cells)@ + gray_cells(bitmap, x as int, y as int, flip_y, gamma@, (i + 1) as nat));
        i += 1;
    }
}

} // verus!
