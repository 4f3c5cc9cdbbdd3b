# iocraft

The logic of a library for terminal user interfaces, written and proved in Verus: how text
is wrapped, truncated, aligned and drawn, how escape sequences become styled text, how views
draw their borders and dispatch clicks, keys and focus, how scroll views and virtual lists
move, and what the smaller components render.

- `src/` is the library. Every function states in its contract what it returns; the laws
  that span functions stand beside them as public proof functions.
- `tests/` runs the library on concrete values, with the outside crates linked.
- `app/` is the terminal around it: events, layout, output, time and the environment.

Drawing is a list of operations (`canvas::DrawOp`) relative to the component that draws.
Handlers, focus contexts and other values that only the application knows are named by
numbers. What the terminal or the environment decides is an argument.

Grapheme clusters, display widths and the order of right-to-left text come from the crates
`unicode-segmentation`, `unicode-width` and `unicode-bidi`; the modules `canvas` and `bidi`
say what is trusted of them, and `strings` what is trusted of the standard library.
