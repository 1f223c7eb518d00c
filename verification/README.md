# sabitori

The decision logic of the Sabitori UI runtime, verified with Verus.

`src/` holds the library. Each module states its behaviour in `requires` /
`ensures` over spec functions, and the properties that span several calls
are public proof functions named `lemma_*`:

- `a11y`: the tree handed to assistive technology (document order, one
  child per node id, names, levels, actions, focus) and the way requests
  from it come back as element ids.
- `declarative`, `runtime_shared`, `key_input`, `input_router`, `frame`,
  `scroll_sync`, `scene_app`: input routing, hover and cursor, focus
  movement, text selection, wheel latching and the per-tick decisions of
  the event loop.
- `ios_keyboard`, `keymap`, `clipboard`: text deltas for the software
  keyboard, key mapping and clipboard shortcuts.
- `tasks`, `screenshot`, `fonts`, `files`, `hot_reload`, `offscreen`,
  `macos_blur`: background results, screenshot timing, the font store, file
  pickers, hot-patch selection, PNG output and window materials.

`app/` is the platform code around it (winit, the system clipboard, threads,
environment variables, sockets, floating-point geometry). `tests/` runs the
library on concrete values.
