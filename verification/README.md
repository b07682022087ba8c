# hearth

The rules of Hearth, a local-first workspace for projects, sticky memos and
schedules with an AI command palette, as a library whose behaviour is stated
in `requires`/`ensures` contracts and proved with Verus.

- `src/` — the verified library: shortcut normalization, category and memo
  rules, patch statements, spreadsheet and dump imports, backup retention,
  reminder ids and times, the tool-calling agent's decisions, the project
  folder scan, and the command line's checks. Laws that span several
  functions are public proof functions (`lemma_*`).
- `tests/` — tests on concrete values.
- `app/` — the `hearth` command line: argument parsing, the SQLite store,
  spreadsheet reading and file-system listing around the library.
