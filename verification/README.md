# application

A small immediate GUI toolkit and the pieces of a CAD editor built on it, verified with
Verus.

`src/` is the verified library:

- `keys`, `color`, `image`, `font`: key codes and hot-keys, pixel colour arithmetic, images
  and windows into them, glyph caches and text drawing.
- `gui`: size constraints and layout, the controls (containers, buttons, check boxes, edits,
  scroll bars, list boxes, radio groups, tabs), the control tree and the system that routes
  input events, focus, highlight and hot-keys through it. Callbacks are jobs queued in the
  `job_system` for the application to run.
- `menus`, `options_menu`, `bottom_panel`, `gui_helper`, `picts`: the editor's panels and
  the decisions their callbacks make on the settings in `config`.
- `cells`, `spans`, `document`, `wide_strings`: tiling cells, filling rasterized spans,
  the kinds of highlighted points, and zero-terminated UTF-16 strings.
- `screen`: what the main window decides from window-system messages (keeping the window
  on the desktop, growing it to the minimal size, bounding a resize, decoding keys and
  mouse positions).

`app/` holds what Verus does not take: the settings file (serde, directories), the
floating-point geometry of lines and arcs and their rasterizer, the random tilings, the
drawing document with its history, and the loop that runs the queued callbacks.

`tests/` exercises the library on concrete values.
