# artistlibrepaint

The model behind ArtistLibrePaint, a layered raster painting program, written
in Verus and proved against its contracts.

- `src/` — the verified library:
  - `text`: decimal notation and string comparison;
  - `brush`: tools, brushes and the brush list with its labels;
  - `stroke`: what a stroke does for each tool and brush (compositing, alpha
    scale, line width, cap and dash, soft-dot layout);
  - `layer`, `document`: the layer stack of a document, its active layer,
    naming, clearing, compositing order and the active-layer description;
  - `workspace`: the open documents, their titles, and the per-page actions
    of the toolbar;
  - `session`: recognising a KDE Plasma desktop from its desktop names.
- `app/` — the GTK 4 / Cairo program: widgets, pixel surfaces, floating-point
  brush size and colour, stroke geometry, PNG export and environment reading.
- `tests/` — tests of the library on concrete values.
