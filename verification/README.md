# iced_plot

Verified core of an interactive, GPU-rendered plot widget for iced.

`src/` is the library, checked by Verus. It holds the widget's logic that
needs no floating-point arithmetic (decisions that compare or combine float
values, such as data bounds and view culling, stay in `app/`):

- `controls` — the user-facing interaction switches and their defaults;
- `interaction` — the mouse/keyboard state machine (pan, drag, box zoom,
  double-click autoscale, wheel zoom/pan, hover and pick), as a transition
  function with laws about it;
- `versions` — data version counters and the renderer's rebuild plan;
- `spans` — series spans, line breaks at dropped points, marker picking ids;
- `visibility`, `fill` — hidden shapes, fill endpoint resolution and fill plans;
- `image` — image validation, labels, quad corner and UV order;
- `autoscale` — the bounds a full autoscale fits;
- `renderer` — pipeline selection, buffer growth, draw ranges, the frame's draw plan and marker instances;
- `vertex` — the byte encoding of GPU vertex data;
- `layout` — the pipelines' vertex layouts, proved to read what the writer wrote.

Floating-point values that the library only carries (vertex positions, colors)
are passed as IEEE-754 bit patterns.

`app/` holds the floating-point and iced-facing code: message and image types
with float payloads, world-space geometry and autoscale arithmetic, input
adapters and overlay vertex data.
