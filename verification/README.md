# eventwatch

Watches paths and reports their events, or runs a command once the events pause.

- `src/` holds the decisions, verified with Verus: which events are of interest, when a
  process is started, what is written to it, and how its command is split.
- `tests/` runs them on concrete values, with the real glob compiler and word splitter.
- `app/` is the program around them: command line, logging, file-system watcher, processes.
