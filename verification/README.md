# stickies

The logic of a desktop sticky-notes application, written in Verus and
verified: the note store (lookup, update, delete, merge of two stores),
settings defaults and validation, directory settings, shell and AppleScript
quoting, the choice of editor and the commands that open it in a terminal,
and the tray's responses.

- `src/` is the verified library. Each public function states what it
  returns in its `ensures`; the laws of the store and of the quoting
  functions are proof functions beside the specifications they speak of.
- `app/` is the Tauri shell: windows, tray, files, processes, JSON. It calls
  the library for the decisions. What it does itself: it asks std and Tauri
  what they alone can answer (path comparison, file metadata, window state,
  whether a program is on `PATH`), runs the loops that wait on those answers
  (the terminal search, the editor watch every half second), and converts
  note geometry between `f64` and the bit patterns the library stores.
- `tests/` runs the library on concrete values.
