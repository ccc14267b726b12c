# clipboard_investigator

Inspects what the clipboard holds: every pasteboard type with its content,
text as it is and binary data in Base64, with the size of each.

- `src/` is the library, verified with Verus: classification of type
  identifiers (`uti`), the entries of a clipboard read (`entry`), the tray
  summary (`summary`), the tray menu and its actions (`tray`), the tray's
  refresh and window decisions (`state`), byte sizes (`size`), the
  command-line modes and report (`cli`), the polled counters (`clock`), and
  string helpers (`text`).
- `app/` is the program around it: reading the macOS pasteboard through the
  Objective-C runtime, the Tauri window and tray, and printing.
- `tests/` exercises the library on concrete values.
