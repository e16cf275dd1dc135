# gruff_plot

A small graph plotter: it draws functions of `x` typed as expressions, and the values
of text data files, in a resizable window.

## Layout

- `src/` — the library, verified with Verus:
  - `expr/` — expressions: the tokenizer, the operator-precedence parser, name
    resolution against an environment of variables and functions, and the
    environment itself.
  - `data/text_file.rs` — where the numbers of each line of a data file stand, and
    whether the lines agree on their number of columns.
  - `cmdline.rs` — what the command line asks for.
  - `source.rs` — the kinds of graph sources and their labels.
  - `window.rs` — the window's decisions: its widgets, the focus, and adding, removing
    and re-kinding sources.
  - `widgets/` — widget focus, the zoom axis, mouse press and release, a
    grapheme-aware text cursor and the editing state of a text box.
  - `text.rs` — characters, strings and their UTF-8 byte offsets.
- `tests/` — tests of the library on concrete values.
- `app/` — the program around the library: the window, drawing and input (raylib),
  file reading, and evaluation of expressions over floating-point numbers.

Expressions: numbers, variables, `+ - * / ^`, unary minus, parentheses, and calls of
functions of zero, one or two arguments. `^` binds tightest and groups to the right,
unary minus binds tighter than `*` and `/`, which bind tighter than `+` and `-`.
