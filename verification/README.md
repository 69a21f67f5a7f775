# agg

The integer core of Anti-Grain Geometry 2.4, verified with Verus.

- `src/` is the library. Every function there carries a contract that Verus
  proves: colour arithmetic (premultiplication, blending, gamma tables),
  pixel blenders for gray, RGB and packed pixels, gray and RGB pixel formats
  over a `RenderBuf`, alpha masks and an RGB pixel format drawn through
  one, image wrap modes, the stack blur (as
  functions over a buffer and as the `StackBlur` row pass), line and
  ellipse interpolators, integer path storage, the command bookkeeping of
  paths (ending, closing and turning round polygons), the glyph caches, the
  decomposition of FreeType outlines into path commands and of glyph
  bitmaps into scanline cells, and the state machines that
  decide what the path converters (close polygon, vertex generator and
  polygon generator adaptors) hand on. Laws that relate several functions are
  public proof functions next to the code they speak of.
- `tests/` runs the library on concrete values.
- `app/` holds what works in floating point, which Verus does not verify:
  rounding helpers, Liang-Barsky clipping, bisectrices, `f64` colours, gamma
  curves, filter weights, arcs, ellipses and arrowheads, and the converters
  that drive the verified state machines over `f64` vertex sources.
