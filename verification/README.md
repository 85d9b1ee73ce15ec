# am_renderer

A renderer and live preview service for Alight Motion XML projects, whose
decision logic is a library verified with Verus.

## Layout

- `src/` — the verified library:
  - `text` — string helpers (equality, trimming, splitting, prefixes,
    unsigned number parsing) specified over character sequences;
  - `xml`, `convert` — the raw XML scene model and the text-level decisions
    of converting it (blend modes, fill types, flags, properties, media,
    easing words, vector components);
  - `model`, `effects`, `mutation` — the layer enumerations and their stored
    names, the effect kinds, the property names an edit may target;
  - `order`, `assets` — string ordering, sorting and deduplication, and the
    pairing of a project's media with asset files;
  - `raster`, `draw`, `offset` — RGBA buffers, Bresenham lines, rectangles,
    the debug pixel font, and the wrap-around pixel shift;
  - `history`, `playback`, `service`, `export` — undo/redo stacks, the
    playback scheduler's state machine, HTTP statuses and frame framing,
    export frame plans and file names.
- `tests/` — tests of the library.
- `app/` — the preview service around it: XML reading, the floating-point
  project model and pixel effects, SQLite storage, the HTTP and WebSocket
  server, the playback timer and PNG/WebP encoding.
