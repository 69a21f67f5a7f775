//! The glyph caches of the font cache manager: per font, a table of the
//! glyphs rendered so far, indexed by the low 16 bits of the glyph code; and
//! a pool of such caches, one per font signature.
use crate::basics::RectI;
use vstd::prelude::*;

verus! {

/// The form a cached glyph is kept in.
#[derive(Clone, Copy, PartialEq, Eq, Structural)]
pub enum GlyphDataType {
    Invalid,
    Mono,
    Gray8,
    Outline,
}

impl GlyphDataType {
    pub open spec fn spec_value(self) -> u32 {
        match self {
            GlyphDataType::Invalid => 0,
            GlyphDataType::Mono => 1,
            GlyphDataType::Gray8 => 2,
            GlyphDataType::Outline => 3,
        }
    }

    /// The kind's number, as the C interface counts them.
    pub fn value(&self) -> (r: u32)
        ensures
            r == self.spec_value(),
    {
        match self {
            GlyphDataType::Invalid => 0,
            GlyphDataType::Mono => 1,
            GlyphDataType::Gray8 => 2,
            GlyphDataType::Outline => 3,
        }
    }
}

/// Who rasterizes a glyph, and into what.
#[derive(Clone, Copy, PartialEq, Eq, Structural)]
pub enum GlyphRender {
    NativeMono,
    NativeGray8,
    Outline,
    AggMono,
    AggGray8,
}

/// One cached glyph: its index in the font, its rendered data, the kind of
/// that data, its bounds, and its advance, of type `A`.
pub struct GlyphCache<A> {
    pub glyph_index: u32,
    pub data: Vec<u8>,
    pub data_size: u32,
    pub data_type: GlyphDataType,
    pub bounds: RectI,
    pub advance_x: A,
    pub advance_y: A,
}

/// The number of glyph slots of a font cache.
pub const GLYPH_SLOTS: usize = 65536;

/// The slot of glyph code `code`: its second byte selects a block of 256,
/// its first byte the slot in the block.
pub open spec fn glyph_slot(code: u32) -> int {
    ((code >> 8u32) & 0xFFu32) as int * 256 + (code & 0xFFu32) as int
}

/// The slot of a glyph code is its low 16 bits: codes that agree there
/// share a slot, codes that differ there never do.
pub proof fn lemma_glyph_slot_is_low_bits(c1: u32, c2: u32)
    ensures
        glyph_slot(c1) == (c1 & 0xFFFFu32) as int,
        0 <= glyph_slot(c1) < GLYPH_SLOTS,
        (glyph_slot(c1) == glyph_slot(c2)) <==> (c1 & 0xFFFFu32 == c2 & 0xFFFFu32),
{
    assert(forall|c: u32|
        #![trigger c & 0xFFFFu32]
        ((c >> 8u32) & 0xFFu32) * 256u32 + (c & 0xFFu32) == c & 0xFFFFu32 && (c >> 8u32) & 0xFFu32
            <= 255 && c & 0xFFu32 <= 255) by (bit_vector);
    assert(((c1 >> 8u32) & 0xFFu32) * 256u32 + (c1 & 0xFFu32) == c1 & 0xFFFFu32);
    assert(((c2 >> 8u32) & 0xFFu32) * 256u32 + (c2 & 0xFFu32) == c2 & 0xFFFFu32);
}

/// Caching the glyph of one code leaves the slot of every code that differs
/// from it in the low 16 bits as it was: a code that was never cached is
/// still not found.
pub proof fn lemma_cache_keeps_other_codes<A>(
    t: Seq<Option<GlyphCache<A>>>,
    c1: u32,
    g: Option<GlyphCache<A>>,
    c2: u32,
)
    requires
        t.len() == GLYPH_SLOTS,
        c1 & 0xFFFFu32 != c2 & 0xFFFFu32,
    ensures
        t.update(glyph_slot(c1), g)[glyph_slot(c2)] == t[glyph_slot(c2)],
        t == empty_table::<A>() ==> t.update(glyph_slot(c1), g)[glyph_slot(c2)] is None,
{
    lemma_glyph_slot_is_low_bits(c1, c2);
    lemma_glyph_slot_is_low_bits(c2, c1);
}

/// `n` zero bytes.
fn zeros(n: u32) -> (r: Vec<u8>)
    ensures
        r@ == Seq::new(n as nat, |i: int| 0u8),
{
    let mut v: Vec<u8> = Vec::new();
    let mut i: u32 = 0;
    while i < n
        invariant
            i <= n,
            v@ == Seq::new(i as nat, |j: int| 0u8),
        decreases n - i,
    {
        v.push(0);
        i = i + 1;
        assert(v@ =~= Seq::new(i as nat, |j: int| 0u8));
    }
    v
}

impl<A> GlyphCache<A> {
    pub fn new(
        glyph_index: u32,
        data: Vec<u8>,
        data_size: u32,
        data_type: GlyphDataType,
        bounds: RectI,
        advance_x: A,
        advance_y: A,
    ) -> (r: Self)
        ensures
            r == (GlyphCache { glyph_index, data, data_size, data_type, bounds, advance_x, advance_y }),
    {
        GlyphCache { glyph_index, data, data_size, data_type, bounds, advance_x, advance_y }
    }
}

/// The glyphs of one font rendered so far, and the font's signature.
pub struct FontCache<A> {
    glyphs: Vec<Option<GlyphCache<A>>>,
    font_signature: String,
}

/// A table with no glyph.
pub open spec fn empty_table<A>() -> Seq<Option<GlyphCache<A>>> {
    Seq::new(GLYPH_SLOTS as nat, |i: int| None)
}

impl<A> FontCache<A> {
    /// The font's signature.
    pub closed spec fn sig(&self) -> Seq<char> {
        self.font_signature@
    }

    /// The glyph slots.
    pub closed spec fn table(&self) -> Seq<Option<GlyphCache<A>>> {
        self.glyphs@
    }

    /// A cache for a font with the empty signature, with no glyph.
    pub fn new() -> (r: Self)
        ensures
            r.sig() == Seq::<char>::empty(),
            r.table() == empty_table::<A>(),
    {
        let mut glyphs: Vec<Option<GlyphCache<A>>> = Vec::new();
        let mut i: usize = 0;
        while i < GLYPH_SLOTS
            invariant
                i <= GLYPH_SLOTS,
                glyphs@ == Seq::new(i as nat, |j: int| None::<GlyphCache<A>>),
            decreases GLYPH_SLOTS - i,
        {
            glyphs.push(None);
            i = i + 1;
            assert(glyphs@ =~= Seq::new(i as nat, |j: int| None::<GlyphCache<A>>));
        }
        FontCache { glyphs, font_signature: String::new() }
    }

    /// Gives the cache the signature `font_signature` and forgets its
    /// glyphs.
    pub fn signature(&mut self, font_signature: &str)
        ensures
            final(self).sig() == font_signature@,
            final(self).table() == empty_table::<A>(),
    {
        let fresh = FontCache::<A>::new();
        self.glyphs = fresh.glyphs;
        self.font_signature = font_signature.to_owned();
    }

    /// Whether the cache belongs to the font `font_signature`.
    pub fn font_is(&self, font_signature: &str) -> (r: bool)
        ensures
            r == (self.sig() == font_signature@),
    {
        self.font_signature == font_signature.to_owned()
    }

    /// The slot of glyph code `code`.
    fn slot(code: u32) -> (r: usize)
        ensures
            r == glyph_slot(code),
            r < GLYPH_SLOTS,
    {
        assert((code >> 8u32) & 0xFFu32 <= 255 && code & 0xFFu32 <= 255) by (bit_vector);
        (((code >> 8u32) & 0xFF) as usize) * 256 + (code & 0xFF) as usize
    }

    /// The cached glyph of code `code`, if any.
    pub fn find_glyph(&self, glyph_code: u32) -> (r: Option<&GlyphCache<A>>)
        requires
            self.table().len() == GLYPH_SLOTS,
        ensures
            r is Some <==> self.table()[glyph_slot(glyph_code)] is Some,
            r is Some ==> *r->0 == self.table()[glyph_slot(glyph_code)]->0,
    {
        let i = Self::slot(glyph_code);
        self.glyphs[i].as_ref()
    }

    /// Caches a glyph of code `code` with `data_size` zero bytes of data,
    /// unless one is cached already.
    fn insert_glyph(
        &mut self,
        glyph_code: u32,
        glyph_index: u32,
        data_size: u32,
        data_type: GlyphDataType,
        bounds: RectI,
        advance_x: A,
        advance_y: A,
    )
        requires
            old(self).table().len() == GLYPH_SLOTS,
        ensures
            0 <= glyph_slot(glyph_code) < GLYPH_SLOTS,
            final(self).sig() == old(self).sig(),
            old(self).table()[glyph_slot(glyph_code)] is Some ==> final(self).table() == old(self).table(),
            old(self).table()[glyph_slot(glyph_code)] is None ==> final(self).table() == old(self).table().update(
                glyph_slot(glyph_code),
                Some(
                    GlyphCache {
                        glyph_index,
                        data: final(self).table()[glyph_slot(glyph_code)]->0.data,
                        data_size,
                        data_type,
                        bounds,
                        advance_x,
                        advance_y,
                    },
                ),
            ) && final(self).table()[glyph_slot(glyph_code)]->0.data@ == Seq::new(
                data_size as nat,
                |i: int| 0u8,
            ),
    {
        let i = Self::slot(glyph_code);
        if self.glyphs[i].is_none() {
            let data = zeros(data_size);
            let g = GlyphCache::new(glyph_index, data, data_size, data_type, bounds, advance_x, advance_y);
            self.glyphs.set(i, Some(g));
        }
    }

    /// Caches a glyph of code `code` with `data_size` zero bytes of data,
    /// unless one is cached already; returns the glyph cached for the code.
    pub fn cache_glyph(
        &mut self,
        glyph_code: u32,
        glyph_index: u32,
        data_size: u32,
        data_type: GlyphDataType,
        bounds: RectI,
        advance_x: A,
        advance_y: A,
    ) -> (r: Option<&GlyphCache<A>>)
        requires
            old(self).table().len() == GLYPH_SLOTS,
        ensures
            final(self).sig() == old(self).sig(),
            old(self).table()[glyph_slot(glyph_code)] is Some ==> final(self).table() == old(self).table(),
            old(self).table()[glyph_slot(glyph_code)] is None ==> final(self).table() == old(self).table().update(
                glyph_slot(glyph_code),
                Some(
                    GlyphCache {
                        glyph_index,
                        data: final(self).table()[glyph_slot(glyph_code)]->0.data,
                        data_size,
                        data_type,
                        bounds,
                        advance_x,
                        advance_y,
                    },
                ),
            ) && final(self).table()[glyph_slot(glyph_code)]->0.data@ == Seq::new(
                data_size as nat,
                |i: int| 0u8,
            ),
            r is Some,
            *r->0 == final(self).table()[glyph_slot(glyph_code)]->0,
    {
        self.insert_glyph(glyph_code, glyph_index, data_size, data_type, bounds, advance_x, advance_y);
        self.find_glyph(glyph_code)
    }
}

/// The caches of the fonts in use, at most `max_fonts` of them found by
/// signature.
pub struct FontCachePool<A> {
    fonts: Vec<FontCache<A>>,
    max_fonts: usize,
    num_fonts: usize,
    cur_font: usize,
}

/// A font cache by its signature and glyph slots.
pub open spec fn cache_view<A>(f: FontCache<A>) -> (Seq<char>, Seq<Option<GlyphCache<A>>>) {
    (f.sig(), f.table())
}

/// The position of the first cache with signature `s`, or -1.
pub open spec fn first_match<A>(caches: Seq<(Seq<char>, Seq<Option<GlyphCache<A>>>)>, s: Seq<char>) -> int
    decreases caches.len(),
{
    if caches.len() == 0 {
        -1
    } else if caches[0].0 == s {
        0
    } else {
        let r = first_match(caches.drop_first(), s);
        if r < 0 {
            -1
        } else {
            r + 1
        }
    }
}

/// `s` with its last element moved to the front.
pub open spec fn rotate_right_one<T>(s: Seq<T>) -> Seq<T> {
    seq![s.last()] + s.drop_last()
}

impl<A> FontCachePool<A> {
    /// The caches, by signature and glyph slots.
    pub closed spec fn caches(&self) -> Seq<(Seq<char>, Seq<Option<GlyphCache<A>>>)> {
        self.fonts@.map_values(|f: FontCache<A>| cache_view(f))
    }

    /// The limit on the number of fonts, the number counted, and the current
    /// font.
    pub closed spec fn counts(&self) -> (usize, usize, usize) {
        (self.max_fonts, self.num_fonts, self.cur_font)
    }

    /// Every cache has all its glyph slots, and the count of fonts does not
    /// exceed the caches.
    pub open spec fn wf(&self) -> bool {
        &&& forall|i: int| 0 <= i < self.caches().len() ==> (#[trigger] self.caches()[i]).1.len() == GLYPH_SLOTS
        &&& self.counts().1 <= self.caches().len()
        &&& self.caches().len() < isize::MAX
    }

    pub fn new(max_fonts: u32) -> (r: Self)
        ensures
            r.caches() == Seq::<(Seq<char>, Seq<Option<GlyphCache<A>>>)>::empty(),
            r.counts() == (max_fonts as usize, 0usize, 0usize),
            r.wf(),
    {
        let r = FontCachePool { fonts: Vec::new(), max_fonts: max_fonts as usize, cur_font: 0, num_fonts: 0 };
        assert(r.caches() =~= Seq::empty());
        r
    }

    /// The position of the first cache of the font `font_signature`, or -1.
    pub fn find_font(&self, font_signature: &str) -> (r: isize)
        requires
            self.wf(),
        ensures
            r == first_match(self.caches(), font_signature@),
    {
        let mut i: usize = 0;
        while i < self.fonts.len()
            invariant
                i <= self.fonts@.len(),
                self.wf(),
                forall|j: int| 0 <= j < i ==> (#[trigger] self.caches()[j]).0 != font_signature@,
            decreases self.fonts@.len() - i,
        {
            if self.fonts[i].font_is(font_signature) {
                proof {
                    lemma_first_match(self.caches(), font_signature@, i as int);
                }
                return i as isize;
            }
            i = i + 1;
        }
        proof {
            lemma_first_match(self.caches(), font_signature@, self.caches().len() as int);
        }
        -1
    }

    /// Makes the font `font_signature` current: its cache when there is one
    /// (emptied when `reset_cache`), else a cache taken for it as the library
    /// always has: when the count has reached the limit the caches rotate by
    /// one and the count drops below the limit; an empty cache is appended,
    /// and the cache at the count gets the signature and loses its glyphs.
    pub fn font(&mut self, font_signature: &str, reset_cache: bool)
        requires
            old(self).wf(),
            old(self).caches().len() + 1 < isize::MAX,
            first_match(old(self).caches(), font_signature@) < 0 ==> old(self).counts().0 >= 1,
        ensures
            final(self).wf(),
            final(self).counts().2 < final(self).caches().len(),
            final(self).caches()[final(self).counts().2 as int].0 == font_signature@,
            ({
                let c = old(self).caches();
                let (max, num, cur) = old(self).counts();
                let idx = first_match(c, font_signature@);
                let fresh = (font_signature@, empty_table::<A>());
                if idx >= 0 {
                    &&& final(self).caches() == (if reset_cache {
                        c.update(idx, fresh)
                    } else {
                        c
                    })
                    &&& final(self).counts() == (max, num, idx as usize)
                } else {
                    let (c1, n1) = if num >= max {
                        (rotate_right_one(c), (max - 1) as usize)
                    } else {
                        (c, num)
                    };
                    &&& final(self).caches() == c1.push((Seq::<char>::empty(), empty_table::<A>())).update(
                        n1 as int,
                        fresh,
                    )
                    &&& final(self).counts() == (max, (n1 + 1) as usize, n1)
                }
            }),
    {
        let ghost c0 = self.caches();
        let idx = self.find_font(font_signature);
        proof {
            lemma_first_match_range(c0, font_signature@);
        }
        if idx >= 0 {
            if reset_cache {
                let mut fc = FontCache::new();
                fc.signature(font_signature);
                self.fonts.set(idx as usize, fc);
                assert(self.caches() =~= c0.update(idx as int, (font_signature@, empty_table::<A>())));
            }
            self.cur_font = idx as usize;
        } else {
            if self.num_fonts >= self.max_fonts {
                let last = self.fonts.pop().unwrap();
                self.fonts.insert(0, last);
                self.num_fonts = self.max_fonts - 1;
                assert(self.caches() =~= rotate_right_one(c0));
            }
            let ghost c1 = self.caches();
            if self.num_fonts <= self.fonts.len() {
                self.fonts.push(FontCache::new());
            } else {
                self.fonts.set(self.num_fonts, FontCache::new());
            }
            assert(self.caches() =~= c1.push((Seq::<char>::empty(), empty_table::<A>())));
            let ghost c2 = self.caches();
            let mut fc = FontCache::new();
            fc.signature(font_signature);
            self.fonts.set(self.num_fonts, fc);
            assert(self.caches() =~= c2.update(self.num_fonts as int, (font_signature@, empty_table::<A>())));
            self.cur_font = self.num_fonts;
            self.num_fonts = self.num_fonts + 1;
        }
    }

    /// The cache of the current font, to change in place; a change of its
    /// signature or glyphs shows in the pool.
    pub fn font_mut(&mut self) -> (r: &mut FontCache<A>)
        requires
            old(self).counts().2 < old(self).caches().len(),
        ensures
            cache_view(*r) == old(self).caches()[old(self).counts().2 as int],
            final(self).caches() == old(self).caches().update(
                old(self).counts().2 as int,
                cache_view(*final(r)),
            ),
            final(self).counts() == old(self).counts(),
    {
        let cur = self.cur_font;
        &mut self.fonts[cur]
    }

    /// The cached glyph of code `code` in the current font, if any.
    pub fn find_glyph(&self, glyph_code: u32) -> (r: Option<&GlyphCache<A>>)
        requires
            self.wf(),
            self.counts().2 < self.caches().len(),
        ensures
            ({
                let t = self.caches()[self.counts().2 as int].1;
                &&& r is Some <==> t[glyph_slot(glyph_code)] is Some
                &&& r is Some ==> *r->0 == t[glyph_slot(glyph_code)]->0
            }),
    {
        proof {
            assert(self.caches()[self.cur_font as int].1.len() == GLYPH_SLOTS);
        }
        self.fonts[self.cur_font].find_glyph(glyph_code)
    }
}

impl<A> FontCachePool<A> {
    /// Caches a glyph in the current font, as `FontCache::cache_glyph` does;
    /// the other fonts are kept.
    pub fn cache_glyph(
        &mut self,
        glyph_code: u32,
        glyph_index: u32,
        data_size: u32,
        data_type: GlyphDataType,
        bounds: RectI,
        advance_x: A,
        advance_y: A,
    ) -> (r: Option<&GlyphCache<A>>)
        requires
            old(self).wf(),
            old(self).counts().2 < old(self).caches().len(),
        ensures
            final(self).wf(),
            final(self).counts() == old(self).counts(),
            ({
                let cur = old(self).counts().2 as int;
                let k = glyph_slot(glyph_code);
                let (sig, t) = old(self).caches()[cur];
                let t2 = final(self).caches()[cur].1;
                &&& final(self).caches() == old(self).caches().update(cur, (sig, t2))
                &&& t[k] is Some ==> t2 == t
                &&& t[k] is None ==> t2 == t.update(
                    k,
                    Some(
                        GlyphCache {
                            glyph_index,
                            data: t2[k]->0.data,
                            data_size,
                            data_type,
                            bounds,
                            advance_x,
                            advance_y,
                        },
                    ),
                ) && t2[k]->0.data@ == Seq::new(data_size as nat, |i: int| 0u8)
                &&& r is Some
                &&& *r->0 == t2[k]->0
            }),
    {
        let ghost c0 = self.caches();
        let cur = self.cur_font;
        proof {
            assert(c0[cur as int].1.len() == GLYPH_SLOTS);
        }
        self.fonts[cur].insert_glyph(
            glyph_code,
            glyph_index,
            data_size,
            data_type,
            bounds,
            advance_x,
            advance_y,
        );
        proof {
            assert(self.caches()[cur as int] == cache_view(self.fonts@[cur as int]));
            assert(self.fonts@[cur as int].table().len() == GLYPH_SLOTS);
            assert(self.caches() =~= c0.update(cur as int, self.caches()[cur as int]));
        }
        self.fonts[cur].find_glyph(glyph_code)
    }
}

/// `first_match` gives a position of a cache with the signature, or -1 when
/// there is none.
proof fn lemma_first_match_range<A>(caches: Seq<(Seq<char>, Seq<Option<GlyphCache<A>>>)>, s: Seq<char>)
    ensures
        -1 <= first_match(caches, s) < caches.len(),
        first_match(caches, s) >= 0 ==> caches[first_match(caches, s)].0 == s,
        first_match(caches, s) < 0 ==> forall|j: int| 0 <= j < caches.len() ==> (#[trigger] caches[j]).0 != s,
    decreases caches.len(),
{
    if caches.len() > 0 && caches[0].0 != s {
        let t = caches.drop_first();
        lemma_first_match_range(t, s);
        assert forall|j: int| 0 <= j < caches.len() && first_match(caches, s) < 0 implies (#[trigger] caches[j]).0 != s by {
            if j > 0 {
                assert(caches[j] == t[j - 1]);
            }
        }
        if first_match(t, s) >= 0 {
            assert(caches[first_match(t, s) + 1] == t[first_match(t, s)]);
        }
    }
}

/// `first_match` finds the first cache with the signature, and only it.
proof fn lemma_first_match<A>(caches: Seq<(Seq<char>, Seq<Option<GlyphCache<A>>>)>, s: Seq<char>, i: int)
    requires
        0 <= i <= caches.len(),
        forall|j: int| 0 <= j < i ==> (#[trigger] caches[j]).0 != s,
        i < caches.len() ==> caches[i].0 == s,
    ensures
        first_match(caches, s) == (if i < caches.len() {
            i
        } else {
            -1
        }),
    decreases caches.len(),
{
    if caches.len() > 0 && i > 0 {
        let t = caches.drop_first();
        assert forall|j: int| 0 <= j < i - 1 implies (#[trigger] t[j]).0 != s by {
            assert(t[j] == caches[j + 1]);
        }
        lemma_first_match(t, s, i - 1);
    }
}

} // verus!
