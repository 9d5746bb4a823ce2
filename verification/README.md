# gpu_ui

A small 2D user-interface toolkit drawn with wgpu, split in two.

- `src/` is the verified library. It holds the discrete decisions of the
  toolkit, each with a contract proved by Verus: keyboard modifier sets,
  mesh index generation and merging, the batching of draw commands into
  groups and chunks, scissor clamping, keyboard focus and Tab navigation,
  the drag and drop state machine, pointer and key routing, the interactive
  state of widgets and buttons, searches over a snapshot of the widget tree,
  texture and font bookkeeping, and grid cells.
- `app/` is ordinary Rust around it: floating-point geometry and layout,
  widgets, text measurement, and every GPU call. It asks the library for
  each decision and hands it plain values.
- `tests/` exercises the library on concrete values.
