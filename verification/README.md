# sol_ui

The retained-state core of an immediate-mode UI toolkit, verified with Verus.

`src/` is the verified library:

- `entity` — generation-checked entity storage with reference counting,
  change observers notified in batches at frame boundaries, render
  invalidation tracking, memoised and computed values, lazily created state.
- `interaction` — keyboard shortcuts and their conflicts, focus, hover and
  press tracking with Tab navigation and focus traps, the element registry,
  hit-test lists, drag-and-drop payloads.
- `element` — the state and input handling of dropdowns, lists and text
  inputs.
- `menu` — application menus as data, with the registry that numbers items
  and keeps their actions.
- `debug` — the log console, frame metrics, debug panels and overlay keys.
- `layout_cache` — layout nodes kept across frames and evicted when unused.
- `color`, `text`, `layer`, `layout_id`, `render`, `clock` — hex colours,
  string helpers, input vocabulary, layout ids, culling counters, the clock.

`app/` holds what stays outside verification: the per-thread store and
registry, the process-wide counters that hand out element and subscription ids,
floating-point geometry, hit testing and colour conversion.
`tests/` exercises the library.
