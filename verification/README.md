# gup

gup is a configuration-driven version manager: it installs versions of software
projects described by metadata files, tracks channels, links custom builds, keeps
directory overrides, and runs the right executable when invoked through a link in its
bin directory.

- `src/` is the library, verified with Verus: paths, start-up script editing, metadata
  resolution, installation plans, the state changes of every command, the tables the
  commands print, the self-update check, and the multiplexer's choice of what to run.
  Each public function states its result, except what comes from the clock (time
  stamps) and what outside crates compute (semantic-version parsing and order, URL
  joining, human sort order), which is named; the laws that relate several functions
  are public proof functions named `law_*`.
- `app/` is the program around it: command-line parsing, files and JSON, downloads
  and archives, symlinks and processes.
- `tests/` runs the library on concrete values.
