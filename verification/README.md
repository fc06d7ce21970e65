# cookie_commander

A dual-pane terminal file manager. The crate is a Verus-verified library
(`src/`) with a thin terminal front end (`app/`).

- `src/pane.rs` — a pane's listing: `..` first, then directories, then other
  entries, each group sorted stably by lower-cased name; cursor movement;
  selection, and what Copy and Delete act on.
- `src/manager.rs` — the application state: focus, path prompt, text viewer,
  configuration, and the steps around file system access (Enter, go to path,
  parent directory, editor launch, start-up, copy, delete), JSON
  prettification in the viewer and writing the result back.
- `src/keys.rs` — the key bindings of each mode.
- `src/config.rs` — extension sets and editor maps, the default configuration,
  and where the VS Code launcher is searched.
- `src/prettify.rs` — the JSON prettifier.
- `src/text.rs`, `src/order.rs`, `src/paths.rs` — lines, trimming, decimal
  numbers, UTF-8 sizes, code point order, stable ordering, and paths.
- `src/display.rs` — what the panes and the viewer draw, sizes included.
- `src/laws.rs` — properties that span several operations.
- `app/` — terminal set-up, event loop, file system, drawing, `config.json`.
