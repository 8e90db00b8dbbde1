# dzed

The core of a modal terminal text editor, written in Verus: key handling and
key maps, editor actions, selections and cursor motions, the clipboard, text
search, soft wrapping, folding, window layout, the decisions of screen
drawing, colour schemes and syntax-tree queries. Contracts say what the
functions return, and Verus proves the code against them. What tree-sitter
computes (the parse, the nodes it finds, query captures) is named as a
function of the grammar and the text it comes from, and the library's
contracts are stated over those names.

## Layout

- `src/` — the verified library.
  - `keys.rs`, `keymap.rs`, `input.rs`, `actions.rs`: key events, binding
    strings and key maps, the input state machine, and the actions it yields.
  - `document.rs`, `selections.rs`: a document's text by rows, its selections,
    and the motions that move them.
  - `buffer.rs`, `point.rs`, `wrap_map.rs`, `fold_map.rs`, `display_map.rs`:
    row geometry, soft wrapping, folding and the viewport.
  - `search.rs`, `text_util.rs`: occurrences and words in a line of text.
  - `clipboard.rs`, `colorscheme.rs`, `theme.rs`, `profiler.rs`,
    `background.rs`, `highlight.rs`, `project.rs`, `settings.rs`.
  - `layout.rs`: the tree of window splits.
  - `render.rs`, `command.rs`: cell colours, gutter and wrap width; `:set`
    and `:syntax` commands.
  - `treesitter/`: grammar detection and tree-sitter parsing and queries.
- `tests/` — tests of the library.
- `app/` — the terminal front end: reading files and keys, drawing, and
  sizing the windows of a layout.

Calls into tree-sitter, into the grammar crates and into a few `std`
functions go through small trusted wrappers whose contracts say what the
library relies on.
