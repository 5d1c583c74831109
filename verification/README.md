# IchigoCrate BASIC machine core

A verified library for the machine underneath an IchigoJam-compatible BASIC:
the unified RAM, the program LIST, variables, the text screen editor, pixel
graphics, the PSG music player, keyboard tables and romaji-to-kana input, the
rasterizer, and the helpers that the desktop and browser front ends share.
Every function in `src/` carries a contract that Verus proves.

What it does not contain: the statement interpreter. The tokenizer's keyword
table and token codes, on which the statement parser, the expression
evaluator and the command dispatcher all depend, are not part of this source
tree, so BASIC statements cannot be run with this crate alone. The pieces of
the tokenizer that need no keyword table (`token_get_char`, numeric
literals) are here, and so is the work of the commands and functions once
their arguments are known: line editing, LIST, SAVE, LOAD, FILES, RENUM
(with GOTO/GOSUB references), COPY, PRINT's number formats, LOCATE, SCROLL,
DRAW, BEEP, PLAY, NEW, and ABS, SIN, COS, FREE, POS, VER, LEN and LINE.

Layout:

- `src/machine.rs`, `src/memory.rs` – the machine state, random numbers,
  variables, LIST access, PEEK / POKE / COPY, NEW.
- `src/edit.rs` – line editing, LOAD checks and LIST output of the program
  store, with the laws that keep it a sorted chain of lines, keep the other
  lines when one is edited, and load back what was saved.
- `src/renum.rs` – RENUM, rewriting the line numbers after GOTO and GOSUB.
- `src/storage.rs`, `src/files.rs` – the save-slot model that hosts
  implement (SAVE and LOAD are in `src/edit.rs`), and FILES.
- `src/funcs.rs` – the BASIC functions that need no tokenizer.
- `src/scan.rs` – the tokenizer's character reader and numeric literals.
- `src/screen.rs`, `src/draw.rs`, `src/print.rs` – the screen editor,
  reading the screen back, graphics, and number / string / error output.
- `src/keys.rs`, `src/keymap.rs`, `src/romajikana.rs`, `src/desktop.rs`,
  `src/web/` – keyboard state and tables, kana input, and the front ends'
  key, output and save-slot logic.
- `src/psg.rs`, `src/sin.rs`, `src/expr.rs`, `src/render.rs` – sound,
  `SIN`, shifts, and the 1-bit rasterizer.
- `app/` – a terminal front end that feeds typed keys to the screen editor,
  with file save slots.
- `tests/` – scenario tests run against the compiled library.
