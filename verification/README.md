# ppc

The logic of an interactive parallel-coordinates plot, verified with Verus.

- `src/` is the verified library:
  - `coordinates`: positions, offsets, lengths and axis-aligned boxes of
    generic coordinate systems, and how two boxes relate.
  - `axis`: which axes exist, which are visible, their left-to-right order
    and the buffer slot of each.
  - `labels`: the labels of the plot, the easing of each, and the active
    one.
  - `builder`: gathering the calls that set up a state transaction into an
    outline whose sets and maps are in key order.
  - `transaction`: checking a state transaction against the plot, and
    applying an accepted one to the axes, labels and plot settings.
  - `selection`: grouping and ranking of the selections on an axis (over
    integer keys that order as the positions do), and where control points
    are inserted.
  - `action`: the decisions of pointer interactions, step by step.
  - `event`: sets of events as bit flags, and the work a batch calls for.
  - `colors`: named colors and the grammar of CSS-like color strings.
  - `wgsl`, `lerp`: host-side vectors and matrices, and arrays filled one
    item at a time.
  - `wasm_bridge`, `label_colors`, and a few enums shared with the host.
- `app/` holds what computes with floating point numbers: the cartesian
  coordinate spaces and their transforms, color spaces and the resolution of
  color queries, selections with their control points, and the checks of
  brush control points. It hands the library plain values.
- `tests/` exercises the library from outside.
