# overstory

Verified state machines and value types for retained UI surfaces, written
in Verus.

`src/` is the library. Its public functions state what they do in
`requires` and `ensures` clauses, and Verus checks every function body in it
against its contract; no body is taken on trust.

- `color`, `ids`, `text_block`: packed RGBA colors, element and semantic
  ids, text block state.
- `timer`: a deadline-sorted timer queue (request, cancel, drain expired,
  re-arm repeating timers).
- `keys`, `edits`: keyboard input as navigation reads it, and the property
  edits that controllers hand to the retained UI.
- `list`, `tree`, `autocomplete`, `property_grid`, `inspector`: surface
  controllers that project rows onto realized elements, map clicks and keys
  to actions, and compute the edits to apply.
- `runtime`: hover transitions and interaction batches.
- `index`: axis-aligned boxes and a flat slot-table spatial index backend.
- `imaging`, `ref_backend`, `display_lowering`: imaging resource handles,
  state and draw operations over a backend's value types, the backend trait
  with recordings and `record_ops`, transform classes and recording reuse,
  SVG keywords, a reference backend with resource slot tables, an imaging
  state snapshot that its state operations update, an event and operation
  log and recordings, and the lowering of display operations into imaging
  operations.
- `drag`: the start and last pointer positions of a drag.
- `glob`: `*` wildcard matching (a `*` matches any run of characters) and
  case filter lists.

`app/` converts values from `ui-events`, `kurbo` and `peniko`, reads the
environment, and holds the floating-point parts (styles, drag deltas,
transform comparison, number formatting). `tests/` exercises the library.
