# iced_aksel

The verified core of a plotting widget library for iced, written in Verus.

`src/` is the library, with every function proved against its contract:

- `position`, `chart`: where axes sit, and the checks a plot layer must pass
  against the chart's axes (duplicate, unknown and conflicting axes).
- `id`, `layer`, `memory`: interaction ids, layer ids, versioned cached data,
  and the frame signature that decides whether cached geometry is reused.
- `event`, `action`, `interaction`: mouse events and their handlers, the
  pointer gesture state machine (press, move, drag, release), and which of
  several hit interactions wins.
- `mesh`: indexed triangle meshes and the index layouts of the basic shapes;
  every writer keeps a well-formed mesh well-formed.
- `sdf`: signed distance fields of glyph masks, computed exactly in integer
  units of 1/255 pixel.
- `glyph_cache`: a bounded least-recently-used cache of glyph geometry, built
  on the `lru` crate.
- `tick`: which axis labels are drawn when labels collide.
- `radii`, `render`: radii arithmetic and what the plot asks of a renderer.

`app/` holds what works with iced's own types: conversions, process-wide id
sources, vertex placement in `f32`, the error type with `Display`, and label
bounds in pixels. `tests/` runs the library on concrete values.
