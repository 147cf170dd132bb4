# atextwin

The engine of a text expander: snippets map abbreviations to expansions, a
keystroke buffer recognises an abbreviation as it is typed, and the expansion
is produced with its dynamic variables (`{date}`, `{heure}`, `{datetime}`,
`{clipboard}`, `{curseur}`) resolved.

- `src/` — the library, verified with Verus:
  - `model.rs` — snippets, statistics, settings, the application state;
  - `commands.rs` — what the user interface asks of the state;
  - `hook.rs` — the keystroke buffer, snippet choice, blacklist;
  - `expansion.rs` — dynamic variables and usage statistics;
  - `text.rs` — character-level text utilities;
  - `system.rs` — clock, local date and time, clipboard;
  - `laws.rs` — properties that span several functions.
- `tests/` — tests of the library on concrete values.
- `app/` — the desktop shell (Tauri window and tray, JSON files, the global
  keyboard hook, keystroke injection, the Windows foreground-process query).
