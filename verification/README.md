# yatui

A small terminal user interface toolkit whose core is verified with Verus.

- `src/` is the verified library:
  - `text`: styles and their merging, style masks over ranges of graphemes, kept in a
    `BTreeMap` under the ends of each range (`mask`, `text_style`), grapheme clusters and
    their widths (`grapheme`), the splitting of a styled string into printable parts
    (`part`), and `Text`, a string edited grapheme by grapheme with its mask and its size
    on the terminal kept up to date (`styled_text`, `raw_text`).
  - `terminal`: cursors, sizes and regions, the cell buffer and the views mapped on parts of it
    (`buffer`), and printers that translate local coordinates into terminal ones.
  - `backend`: the `Backend` trait and a terminal emulator used in tests (`backend::raw`).
  - `component`, `compositor`: the parts of components that hold no callbacks, and what the
    compositor decides before a frame.
- `app/` is the application around it: terminal drivers, the type-erased state storage,
  components with their callbacks, the constraint-solver layout and the main loop.
- `tests/` runs the library on concrete values.
