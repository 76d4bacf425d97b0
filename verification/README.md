# rs_tex

A small TeX engine, written in Verus: its logic is proved against contracts.

- `src/lexer.rs` turns lines of text into tokens under a category table.
- `src/state.rs` holds what TeX assigns (counts, macros, codes, fonts) in
  groups that a closing group undoes.
- `src/parser/` reads tokens with expansion (macros, conditionals,
  `\number`), numbers, dimensions, glue and assignments. `parser/reading.rs` states expanded
  reading as mathematics; every reader is proved to give what it says, and
  `parser/progress.rs` proves that readings finish.
- `src/font_metrics.rs` holds the metrics of a font at a size, scaled from
  its design size.
- `src/boxes.rs` builds horizontal boxes from lists (their height, depth and
  width from the metrics of their characters), sets their glue and computes
  badness; `src/glue.rs` and `src/dimension.rs` add glue and dimensions.
- `src/math_list.rs` holds math lists and styles, and places scripts
  beside a nucleus.
- `src/box_to_dvi.rs` writes pages of boxes as DVI commands, defining each
  font where it is first used and again in the postamble.
- `src/dvi/` reads, writes and interprets DVI files; writing then reading a
  file gives back its commands.
- `app/main.rs` reads TeX from standard input and prints what expansion and
  assignment leave of it.
