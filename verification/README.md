# themalingadingdong

A Base24 color palette generator (tinted-theming schemes) whose discrete
core is written in Verus and proved against its contracts.

- `src/` is the verified library: hex and CSS color parsing, hex output,
  scheme import (modern then legacy format, palette lookup, the metadata
  and base colors of an imported theme), scheme slugs and palette slot
  names, variant selection, the validation
  pair tables and panel status, the bucketed gamut cache, and the focus,
  selection and text-entry state machines of the interactive editor.
- `app/` is the command-line program around it: argument parsing, TOML
  configuration, reading and writing files, and the floating-point color
  science (the Hellwig-Fairchild appearance model, APCA contrast, gamut
  mapping and the accent optimizer).
- `tests/` runs the library on concrete values.

The program has no interactive editor: `--interactive` is refused.  The
editor's focus, selection and text-entry state machines are in
`src/tui/`, verified, but nothing in `app/` drives them.
