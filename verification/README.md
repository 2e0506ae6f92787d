# VibeCat

A desktop cat that watches the command line tools that a programmer lets work. Their hooks and
their telemetry end up in one event log; the cat, a monitor window and the terminal show what the
log says.

- `src/` is the verified library: the events and their summaries, the log and its rotation, the
  reading of telemetry, the set-up of the hooks, the states and animations of the cats, the
  choice of a display, the tray icon and the texts in two languages.
- `app/` is the program around it: the command line, files, the network, windows and the tray.
- `tests/` runs the library.

The program reads two variables of the environment: `VIBE_CAT_AGENT`, the name of the agent whose
hooks it sets up, as the help and the tray menu show it, and `VIBE_CAT_SETTINGS_DIR`, the name of
the directory of that agent's settings in the home directory or in a project.
