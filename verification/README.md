# aurora_wm

A small desktop window manager for the browser, with its logic verified by Verus:
window layout, the dock, focus and keyboard handling, the terminal log, the file
browser listing, and the software rasteriser that paints every frame.

Layout:

- `src/geometry.rs`: rectangles, the dock and window layout arithmetic.
- `src/raster.rs`: pixel blending and the shape fills (rectangles, rounded
  rectangles, discs, file icons) over an RGBA frame buffer.
- `src/scene.rs`: the display list of one frame, built as draw commands.
- `src/state.rs`: the session state and every operation on it.
- `src/assets.rs`: wallpaper decoding and font loading through `image` and
  `rusttype`.
- `src/laws.rs`: properties that span several operations, stated and proved.
- `app/lib.rs`: the exported C interface, the global session and text
  rendering with `rusttype`.
