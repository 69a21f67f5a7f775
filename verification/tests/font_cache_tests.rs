use agg::basics::RectI;
use agg::font_cache_manager::{FontCache, FontCachePool, GlyphCache, GlyphDataType};

fn bounds() -> RectI {
    RectI::new(1, 2, 3, 4)
}

#[test]
fn glyph_data_type_values() {
    assert_eq!(GlyphDataType::Invalid.value(), 0);
    assert_eq!(GlyphDataType::Mono.value(), 1);
    assert_eq!(GlyphDataType::Gray8.value(), 2);
    assert_eq!(GlyphDataType::Outline.value(), 3);
}

#[test]
fn glyph_cache_new_keeps_fields() {
    let g = GlyphCache::new(7, vec![1u8, 2], 2, GlyphDataType::Gray8, bounds(), 5i32, -1i32);
    assert_eq!(g.glyph_index, 7);
    assert_eq!(g.data, vec![1u8, 2]);
    assert_eq!(g.data_size, 2);
    assert!(g.data_type == GlyphDataType::Gray8);
    assert_eq!(g.advance_x, 5);
    assert_eq!(g.advance_y, -1);
}

#[test]
fn font_cache_caches_once() {
    let mut fc: FontCache<i32> = FontCache::new();
    fc.signature("Arial-12");
    assert!(fc.font_is("Arial-12"));
    assert!(!fc.font_is("Arial-13"));
    assert!(fc.find_glyph(0x141).is_none());
    {
        let g = fc.cache_glyph(0x141, 9, 3, GlyphDataType::Mono, bounds(), 8, 0).unwrap();
        assert_eq!(g.glyph_index, 9);
        assert_eq!(g.data, vec![0u8, 0, 0]);
    }
    // A second caching of the same code keeps the first glyph.
    {
        let g = fc.cache_glyph(0x141, 10, 1, GlyphDataType::Gray8, bounds(), 1, 1).unwrap();
        assert_eq!(g.glyph_index, 9);
        assert_eq!(g.data_size, 3);
    }
    let g = fc.find_glyph(0x141).unwrap();
    assert_eq!(g.advance_x, 8);
    // Codes that differ above the low 16 bits share a slot.
    assert_eq!(fc.find_glyph(0x10141).unwrap().glyph_index, 9);
    assert!(fc.find_glyph(0x142).is_none());
    // A new signature forgets the glyphs.
    fc.signature("Arial-14");
    assert!(fc.find_glyph(0x141).is_none());
}

#[test]
fn font_cache_pool_finds_fonts() {
    let mut pool: FontCachePool<i32> = FontCachePool::new(4);
    assert_eq!(pool.find_font("a"), -1);
    pool.font("a", false);
    pool.font("b", false);
    assert_eq!(pool.find_font("a"), 0);
    assert_eq!(pool.find_font("b"), 1);
    assert_eq!(pool.find_font("c"), -1);
    pool.cache_glyph(65, 1, 0, GlyphDataType::Outline, bounds(), 3, 0);
    assert!(pool.find_glyph(65).is_some());
    pool.font("a", false);
    assert!(pool.find_glyph(65).is_none());
    pool.font("b", false);
    assert_eq!(pool.find_glyph(65).unwrap().advance_x, 3);
    // Selecting a font again with a reset forgets its glyphs.
    pool.font("b", true);
    assert!(pool.find_glyph(65).is_none());
}

#[test]
fn font_cache_pool_full_rotates() {
    let mut pool: FontCachePool<i32> = FontCachePool::new(2);
    pool.font("a", false);
    pool.font("b", false);
    pool.font("c", false);
    // The pool was full: its last cache moved to the front and the new
    // font took the place of the last counted one.
    assert_eq!(pool.find_font("b"), 0);
    assert_eq!(pool.find_font("c"), 1);
    assert_eq!(pool.find_font("a"), -1);
}

#[test]
fn font_cache_pool_font_mut_changes_current() {
    let mut pool: FontCachePool<i32> = FontCachePool::new(2);
    pool.font("a", false);
    pool.font_mut().cache_glyph(300, 4, 2, GlyphDataType::Gray8, bounds(), 0, 0);
    assert_eq!(pool.find_glyph(300).unwrap().glyph_index, 4);
    pool.font_mut().signature("z");
    assert_eq!(pool.find_font("z"), 0);
    assert_eq!(pool.find_font("a"), -1);
}
