//! Glyphs of a bitmap font: a header of height, base line, first character
//! and character count, a table of 16-bit glyph offsets, and for each glyph
//! its width followed by its rows of bits.
use vstd::prelude::*;

verus! {

/// The 16-bit value at `pos`, low byte first unless `big_endian`.
pub open spec fn font_u16(font: Seq<u8>, pos: int, big_endian: bool) -> int {
    if big_endian {
        font[pos] * 256 + font[pos + 1]
    } else {
        font[pos] + font[pos + 1] * 256
    }
}

/// The position of the data of `glyph`: after the header and the offset
/// table, at the glyph's offset.
pub open spec fn glyph_start(font: Seq<u8>, big_endian: bool, glyph: int) -> int {
    4 + font[3] * 2 + font_u16(font, 4 + (glyph - font[2]) * 2, big_endian)
}

/// The cover of pixel `j` of the glyph row whose bits start at `row`: full
/// where the bit is set. Pixels past the eighth are read from the row's
/// second byte, whatever the glyph's width.
pub open spec fn row_cover(font: Seq<u8>, row: int, j: int) -> u8 {
    let b = if j < 8 {
        font[row]
    } else {
        font[row + 1]
    };
    if (b >> ((7 - j % 8) as u8)) & 1u8 == 1u8 {
        255
    } else {
        0
    }
}

/// The sum of the widths of the glyphs of `glyphs`.
pub open spec fn glyphs_width(font: Seq<u8>, big_endian: bool, glyphs: Seq<u8>) -> int
    decreases glyphs.len(),
{
    if glyphs.len() == 0 {
        0
    } else {
        glyphs_width(font, big_endian, glyphs.drop_last()) + font[glyph_start(
            font,
            big_endian,
            glyphs.last() as int,
        )]
    }
}

/// Renders the glyphs of a bitmap font row by row into covers.
/// The code of `c` cut to a byte.
pub open spec fn char_code(c: char) -> u8 {
    c as u8
}

pub struct GlyphRasterBin<'a> {
    font: &'a [u8],
    big_endian: bool,
    span: Vec<u8>,
    bits: usize,
    glyph_width: u32,
    glyph_byte_width: u32,
}

proof fn lemma_top_bit(b: u8, n: u8, m: u8)
    by (bit_vector)
    requires
        n < 8,
        m == 7 - n,
    ensures
        (((b << n) & 0x80u8) != 0u8) == ((b >> m) & 1u8 == 1u8),
{
}

proof fn lemma_shl_step(b: u8, k: u8, k1: u8)
    by (bit_vector)
    requires
        k < 8,
        k1 == k + 1,
    ensures
        ((b << k) << 1u8) == (b << k1),
        b << 0u8 == b,
{
}

proof fn lemma_mod8_step(j: int)
    requires
        j >= 0,
    ensures
        (j + 1) % 8 == (if j % 8 == 7 {
            0
        } else {
            j % 8 + 1
        }),
{
    vstd::arithmetic::div_mod::lemma_fundamental_div_mod(j, 8);
    let q = j / 8;
    let r = j % 8;
    if r == 7 {
        vstd::arithmetic::div_mod::lemma_fundamental_div_mod_converse(j + 1, 8, q + 1, 0);
    } else {
        vstd::arithmetic::div_mod::lemma_fundamental_div_mod_converse(j + 1, 8, q, r + 1);
    }
}

impl<'a> GlyphRasterBin<'a> {
    /// The font, whether its offsets are big endian, the position of the
    /// current glyph's rows, its width in pixels and in bytes, and the
    /// covers of the last row.
    pub closed spec fn state(&self) -> (Seq<u8>, bool, int, u32, u32, Seq<u8>) {
        (self.font@, self.big_endian, self.bits as int, self.glyph_width, self.glyph_byte_width, self.span@)
    }

    /// Reads `font`; its offsets are read low byte first.
    pub fn new(font: &'a [u8]) -> (r: Self)
        ensures
            r.state().0 == font@,
            !r.state().1,
            r.state().5.len() == 32,
            r.state().3 == 0,
    {
        GlyphRasterBin {
            font: font,
            big_endian: false,
            span: vec![0u8; 32],
            bits: 0,
            glyph_width: 0,
            glyph_byte_width: 0,
        }
    }

    pub fn font(&self) -> (r: &'a [u8])
        ensures
            r@ == self.state().0,
    {
        self.font
    }

    pub fn set_font(&mut self, f: &'a [u8])
        ensures
            final(self).state() == (
                f@,
                old(self).state().1,
                old(self).state().2,
                old(self).state().3,
                old(self).state().4,
                old(self).state().5,
            ),
    {
        self.font = f;
    }

    /// The height of the font in pixels.
    pub fn height(&self) -> (r: u8)
        requires
            self.state().0.len() >= 1,
        ensures
            r == self.state().0[0],
    {
        self.font[0]
    }

    /// The base line of the font, in pixels from the top.
    pub fn base_line(&self) -> (r: u8)
        requires
            self.state().0.len() >= 2,
        ensures
            r == self.state().0[1],
    {
        self.font[1]
    }

    fn value(&self, pos: usize) -> (r: u16)
        requires
            pos + 1 < self.state().0.len(),
        ensures
            r == font_u16(self.state().0, pos as int, self.state().1),
    {
        let lo: u16;
        let hi: u16;
        if self.big_endian {
            hi = self.font[pos] as u16;
            lo = self.font[pos + 1] as u16;
        } else {
            lo = self.font[pos] as u16;
            hi = self.font[pos + 1] as u16;
        }
        hi * 256 + lo
    }

    /// The position of the data of `glyph`.
    fn glyph_data(&self, glyph: u32) -> (r: usize)
        requires
            self.state().0.len() >= 4,
            glyph >= self.state().0[2],
            4 + (glyph - self.state().0[2]) * 2 + 1 < self.state().0.len(),
        ensures
            r == glyph_start(self.state().0, self.state().1, glyph as int),
    {
        let start_char = self.font[2] as u32;
        let num_chars = self.font[3] as usize;
        let k = (glyph - start_char) as usize;
        let off = self.value(4 + k * 2);
        4 + num_chars * 2 + off as usize
    }

    /// The sum of the widths of the glyphs of `glyphs`, in pixels.
    fn width_of(&self, glyphs: &[u8]) -> (r: u32)
        requires
            self.state().0.len() >= 4,
            forall|i: int|
                0 <= i < glyphs@.len() ==> #[trigger] glyphs@[i] >= self.state().0[2] && 4 + (glyphs@[i]
                    - self.state().0[2]) * 2 + 1 < self.state().0.len() && glyph_start(
                    self.state().0,
                    self.state().1,
                    glyphs@[i] as int,
                ) < self.state().0.len(),
            glyphs@.len() <= 0xFF_FFFF,
        ensures
            r == glyphs_width(self.state().0, self.state().1, glyphs@),
    {
        let mut w: u32 = 0;
        let mut i: usize = 0;
        while i < glyphs.len()
            invariant
                i <= glyphs@.len(),
                glyphs@.len() <= 0xFF_FFFF,
                self.state().0.len() >= 4,
                forall|i: int|
                    0 <= i < glyphs@.len() ==> #[trigger] glyphs@[i] >= self.state().0[2] && 4 + (glyphs@[i]
                        - self.state().0[2]) * 2 + 1 < self.state().0.len() && glyph_start(
                        self.state().0,
                        self.state().1,
                        glyphs@[i] as int,
                    ) < self.state().0.len(),
                w == glyphs_width(self.state().0, self.state().1, glyphs@.subrange(0, i as int)),
                w <= 255 * i,
            decreases glyphs@.len() - i,
        {
            let g = glyphs[i] as u32;
            let p = self.glyph_data(g);
            proof {
                assert(glyphs@.subrange(0, i + 1).drop_last() =~= glyphs@.subrange(0, i as int));
            }
            w = w + self.font[p] as u32;
            i += 1;
        }
        proof {
            assert(glyphs@.subrange(0, glyphs@.len() as int) =~= glyphs@);
        }
        w
    }

    /// The sum of the widths of the glyphs of the characters of `text`, in
    /// pixels; each character selects the glyph of its code cut to a byte.
    pub fn width(&self, text: &str) -> (r: u32)
        requires
            self.state().0.len() >= 4,
            forall|i: int|
                0 <= i < text@.len() ==> #[trigger] char_code(text@[i]) >= self.state().0[2] && 4 + (
                char_code(text@[i]) - self.state().0[2]) * 2 + 1 < self.state().0.len() && glyph_start(
                    self.state().0,
                    self.state().1,
                    char_code(text@[i]) as int,
                ) < self.state().0.len(),
            text@.len() <= 0xFF_FFFF,
        ensures
            r == glyphs_width(self.state().0, self.state().1, text@.map_values(|c: char| char_code(c))),
    {
        let mut codes: Vec<u8> = Vec::new();
        for c in it: text.chars()
            invariant
                codes@ == it.seq().subrange(0, it.index() as int).map_values(|c: char| char_code(c)),
                it.seq() == text@,
        {
            codes.push(c as u8);
            proof {
                assert(codes@ =~= it.seq().subrange(0, it.index() + 1).map_values(|c: char| char_code(c)));
            }
        }
        proof {
            assert(codes@ =~= text@.map_values(|c: char| char_code(c)));
        }
        self.width_of(codes.as_slice())
    }

    /// Makes `glyph` the current glyph: its width and the position of its
    /// rows.
    pub fn prepare_glyph(&mut self, glyph: u32) -> (r: u32)
        requires
            old(self).state().0.len() >= 4,
            glyph >= old(self).state().0[2],
            4 + (glyph - old(self).state().0[2]) * 2 + 1 < old(self).state().0.len(),
            glyph_start(old(self).state().0, old(self).state().1, glyph as int) + 1 < old(
                self,
            ).state().0.len(),
        ensures
            ({
                let s = old(self).state();
                let g = glyph_start(s.0, s.1, glyph as int);
                &&& r == s.0[g]
                &&& final(self).state() == (s.0, s.1, g + 1, r, ((r + 7) / 8) as u32, s.5)
            }),
    {
        let p = self.glyph_data(glyph);
        let w = self.font[p] as u32;
        self.glyph_width = w;
        self.bits = p + 1;
        let w7: u32 = w + 7;
        proof {
            vstd::bits::lemma_u32_shr_is_div(w7, 3);
            vstd::arithmetic::power2::lemma2_to64();
        }
        self.glyph_byte_width = w7 >> 3u32;
        w
    }

    /// The covers of row `i0` of the current glyph, counted from the
    /// bottom: full where the row's bit is set, none where it is clear.
    pub fn span(&mut self, i0: u32) -> (r: &[u8])
        requires
            ({
                let s = old(self).state();
                &&& s.0.len() >= 1
                &&& i0 < s.0[0]
                &&& s.3 <= 32
                &&& s.5.len() == 32
                &&& s.2 + (s.0[0] - i0 - 1) * s.4 < s.0.len()
                &&& s.3 >= 8 ==> s.2 + (s.0[0] - i0 - 1) * s.4 + 1 < s.0.len()
            }),
        ensures
            ({
                let s = old(self).state();
                let row = s.2 + (s.0[0] - i0 - 1) * s.4;
                &&& r@.len() == 32
                &&& forall|j: int| 0 <= j < 32 ==> #[trigger] r@[j] == (if j < s.3 {
                    row_cover(s.0, row, j)
                } else {
                    s.5[j]
                })
                &&& final(self).state() == (s.0, s.1, s.2, s.3, s.4, r@)
            }),
    {
        let ghost s = self.state();
        let i = self.font[0] as u32 - i0 - 1;
        let n = self.font.len();
        assert(i * self.glyph_byte_width <= n) by (nonlinear_arith)
            requires
                self.bits + i * self.glyph_byte_width < n,
        ;
        let row = self.bits + (i as usize) * (self.glyph_byte_width as usize);
        let mut val: u8 = self.font[row];
        let mut nb: u8 = 0;
        proof {
            lemma_shl_step(val, 0, 1);
        }
        let mut j: u32 = 0;
        while j < self.glyph_width
            invariant
                s == (self.font@, self.big_endian, self.bits as int, self.glyph_width, self.glyph_byte_width, s.5),
                s.3 <= 32,
                self.span@.len() == 32,
                row == s.2 + (s.0[0] - i0 - 1) * s.4,
                row < s.0.len(),
                s.3 >= 8 ==> row + 1 < s.0.len(),
                n == s.0.len(),
                j <= s.3,
                nb < 8,
                nb == j % 8,
                val == ((if j < 8 {
                    s.0[row as int]
                } else {
                    s.0[row + 1]
                }) << nb),
                forall|k: int| 0 <= k < 32 ==> #[trigger] self.span@[k] == (if k < j {
                    row_cover(s.0, row as int, k)
                } else {
                    s.5[k]
                }),
            decreases s.3 - j,
        {
            proof {
                let b = if j < 8 {
                    s.0[row as int]
                } else {
                    s.0[row + 1]
                };
                lemma_top_bit(b, nb, (7 - nb) as u8);
            }
            let c: u8 = if (val & 0x80) != 0 {
                255
            } else {
                0
            };
            self.span.set(j as usize, c);
            val = val << 1u8;
            nb += 1;
            if nb >= 8 {
                val = self.font[row + 1];
                nb = 0;
            }
            proof {
                let b = if j < 8 {
                    s.0[row as int]
                } else {
                    s.0[row + 1]
                };
                lemma_shl_step(b, (j % 8) as u8, (j % 8 + 1) as u8);
                lemma_shl_step(s.0[row + 1], 0, 1);
                lemma_mod8_step(j as int);
            }
            j += 1;
        }
        self.span.as_slice()
    }
}

} // verus!
