# replayd

An instant-replay application for Linux: it keeps `gpu-screen-recorder`
buffering the screen, saves the last moments on a global shortcut, and files
the clips in a library that can be browsed, filtered by game and searched.

## Layout

- `src/` — the library, verified with Verus: the clip library's data model
  and decisions (`schema`, `library`, `order`, `search`), paths and their
  components (`paths`), the control protocol of `replaydctl` and the save
  hook (`protocol`, `ctl`), game identification from the focused window
  (`identifier`, `hypr`, `kde`), the recorder's command line and state
  (`recorder`), the texts shown to the user (`format`, `dialogs`,
  `messages`, `actions`), thumbnails and the tray icon (`thumbnail`, `tray`),
  and character-level text helpers (`text`).
- `tests/` — tests of the library on concrete values.
- `app/` — the program around the library: the GTK window, the database,
  the sockets, the desktop portals and the recorder process. Started as
  `replaydctl` or `replayd-hook` it acts as those tools.

Clip paths are stored relative to the library folder, so the library can be
moved; `paths::law_strip_prefix_then_join` and
`paths::law_relative_path_moves` state and prove what that rests on.
