# tui

A terminal widget library whose logic is proved with Verus.

- `src/`: the verified library. Widgets (buttons, checkboxes, lists, tables,
  tabs, trees, text inputs and areas, dialogs, code blocks, progress bars),
  their event handling, navigation, styles, CSS-like parsing and themes. Each
  widget states in its contracts what it does with an event and what it draws
  in an area (its `render_plan` and similar functions describe the cells to
  paint). Laws that span several calls are public proof functions named
  `law_*`.
- `tests/`: tests on concrete values.
- `app/`: what stays outside the proofs: the terminal, the global theme, and
  the floating-point parts (progress fractions, scrollbar thumbs, flex
  factors).

Syntax highlighting (`syntect`), display widths (`unicode-width`) and id
hashing (`rustc-hash`) are reached through a few trusted wrappers whose
contracts say what those crates do.
