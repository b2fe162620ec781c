# grr

The logic of a small Wayland desktop shell (a bar with workspace buttons and a
clock, a notification popup and an application launcher), verified with Verus.

- `src/` is the verified library: configuration store, compositor workspace
  tracking, monitor/bar bookkeeping, workspace buttons, notification ids and
  popup state, application search and launcher key handling.
- `app/` is the GTK front end: it reads the compositor socket and D-Bus, builds
  the windows and hands plain values to the library.
- `tests/` exercises the library on concrete values.
