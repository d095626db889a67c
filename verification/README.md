# aooff

A launcher: a daemon keeps the lists of projects (directories under
`~/projects/`) and installed programs (files in `/usr/bin` and `/bin`) and
serves them over a Unix socket; a popup fetches them, filters them with a
fuzzy matcher as the user types, and starts the chosen entry.

- `src/` is the verified library: the messages (`protocol`), the settings
  and their defaults (`config`), the daemon's decisions (`daemon`: which walk
  entries are projects or programs, what a request is answered, which list a
  change on disk makes stale), and the popup (`popup`: the state, the
  ranking of matches, what each key does, and the pixel work of the frame).
- `app/` is the program around it: threads, sockets, the file watcher, the
  Wayland window, text rendering and starting processes.
- `tests/` exercise the library with the real outside crates.
