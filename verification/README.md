# dmacs

A small terminal text editor for notes and task lists, whose editing logic
is verified with Verus.

- `src/` is the verified library: the text model (`text`, `lines`), the
  document and its edit records (`document`), key bindings (`config`), the
  editor state and every command (`editor/*`), what the screen shows
  (`editor/render`), the names of backup and cursor-record files, which
  backups are written and which are old enough to delete (`backup`,
  `persistence`). Each public function states its effect in its
  contract; `editor/laws.rs` and `document.rs` prove what commands promise
  together (undo gives back the text, saved content reads back, and so on).
- `app/` is the program around it: the terminal, files on disk, the
  configuration file, and the loop that reads keys and carries out the
  requests (saving, quitting, posting) that commands hand back.
- `tests/` exercises the library from outside.
