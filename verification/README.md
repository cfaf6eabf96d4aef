# discord_tray

A desktop shell around the Discord web app: a window with a web view, a tray
icon with an unread badge, and a few macOS touches.

- `src/` is the verified library: the IPC messages the page sends
  (`ipc`), the event-loop decisions (`controller`), the badge text and
  appearance (`badge`), the tray glyph's pixel work and its cache (`pixels`,
  `icons`), the browser identity (`agent`) and the window builder type
  (`window`).
- `app/` is the program: windowing, web view, tray and menu, and the
  floating-point geometry of the badge dot.
- `tests/` runs the library on concrete values.
