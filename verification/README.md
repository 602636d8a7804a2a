# textedit

The editing core of a text editor, written in Verus: every function of the
library carries a contract that Verus proves, and the laws that hold across
functions (undo gives back what an edit took, a load reads back what a save
wrote, the recent-files list keeps its limit) are stated and proved as proof
functions.

## Layout

- `src/text.rs` — the model of text the contracts speak of: chars, lines and
  their breaks, words, UTF-8 lengths, and string helpers.
- `src/domain/` — the rope-backed buffer (through `ropey`), the cursor with its
  selection, line/column positions, and the undo/redo history of edits.
- `src/application/` — the editor service (buffer, cursor, history, file name,
  display flags, search) and the file service over a file repository.
- `src/interface/` — key handling (shortcuts, editing keys, typed text) and the
  menu commands, each stated as a function of the editor's state.
- `src/editor/` — a second editor core with its own key handling, the
  find/replace bar, a `String`-backed text buffer with `str::lines` semantics,
  and documents with encoding detection (`encoding_rs`) and line-ending
  conversion.
- `src/app/` — clipboard commands and undo/redo helpers for that editor core.
- `src/features/` — find and replace (plain or `regex`), the undo manager with
  a bounded history, and the recent-files list.
- `src/menu.rs` — menu commands and the ids and labels that name them.
- `src/ports/`, `src/infrastructure/` — the clipboard, file and renderer ports,
  and the clipboard adapter over `arboard`.
- `app/` — a command-line front end: it reads and writes files, keeps the
  float-valued settings (zoom, font size), and carries the `serde` and
  `thiserror` derives on copies of library types.
- `tests/` — tests of the library on concrete values.
