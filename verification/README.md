# wayland_utils

A small desktop utility for Wayland: it reads a configuration file of
profiles (variables, scripts, programs, templates, colours and a wallpaper),
checks wallpaper paths against the file system, keeps track of the active
wallpaper and group, and runs scripts.

- `src/` is the library, verified with Verus: the data model (`parser`,
  `wallpaper`, `theme`, `keyed`), the interpretation of a configuration
  file's parse tree (`interpret`), checking a wallpaper description against
  what the file system reports (`wpaper`), choosing what to run (`exec`),
  file locations chosen once (`conf`), map files (`util`) and what reading
  leaves for the rest of the program (`store`).
- `app/` is the program around it: the grammar, reading files, walking
  directories, spawning processes and the global state.
- `tests/` runs the library on concrete values.
