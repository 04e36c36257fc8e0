# rira

The verified core of rira, a native code editor: a rope-backed text buffer
with cursor, selection, undo history and viewport; key bindings and their
keymaps; colors and themes; the line number gutter; the terminal color
palette; and the `file[:line]` command line argument.

- `src/` is the library, written in Verus.  Every function states its
  behaviour in `requires`/`ensures`, over mathematical models (`Seq<char>`
  for a text, `Map` for a keymap), and the laws that relate functions stand
  as proof functions (`law_*`).  The calls into ropey, unicode-width and std
  that the library cannot prove are small trusted wrappers whose contracts
  say what those crates document.
- `tests/` runs the library on concrete values.
- `app/` is the program around it: the winit window, the wgpu renderer,
  file I/O, and the TOML files read with serde.
