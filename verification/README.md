# tuber

The core of a small game engine, written in Verus and proved against its
contracts:

- `ecs`, `query`, `bitset`: an entity-component store with a bitset per
  component kind, queries over required and optional kinds, updates of
  components through a query, shared resources.
- `asset`: asset metadata, loaders by asset kind and loaded assets.
- `input`: key bindings, and which keys and buttons are held now and were
  held before the last input.
- `state`, `system`: the stack of game states and the requests that change
  it; bundles of systems run in turn.
- `tilemap`, `animation`, `bitmap_font`, `immediate_gui`, `graphics`:
  tiles with tags, sprite animation, bitmap fonts, immediate-mode frames,
  small graphics records.
- `obj_parser`, `text`, `number`: a Wavefront OBJ reader over characters,
  with the number grammar it relies on.
- `render_graph`, `render_resource`, `draw_command`, `gpu_buffer`,
  `quad_renderer`, `renderer`, `texture_store`: the bookkeeping of rendering
  (passes, loaded textures, draw
  commands, growing GPU buffers, quad and mesh batches); the GPU work that
  these values describe is left to the caller.

`src/` is the verified library, `tests/` its tests, and `app/` the file
reading around it (key bindings, asset descriptions and fonts in JSON).
