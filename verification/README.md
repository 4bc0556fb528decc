# loadbot

Loadbot keeps command-line tools that live in Git repositories at hand. Tools
are listed in catalogs (Git repositories holding a `catalog.toml`); Loadbot
clones a tool into a managed checkout, updates and pushes it, and launches its
files or recipes, directly or through saved shortcuts.

## Layout

- `src/` is the library, verified with Verus. It holds the rules: the
  command-line grammar, catalog, configuration and shortcut validation, sorted
  registrations, Git URL identities, recipe resolution, the launcher
  inventory and menus, and the texts that report progress. Where a decision
  waits on the outside world (a running process with its capture limit,
  timeout and cancellation; a Git command retried through a Rot identity; a
  checkout's transport reconciled or its SSH push URL offered; an initial
  catalog committed and pushed only as asked), the library
  holds it as a state machine whose step is stated exactly, and the program
  performs each action it returns. The menus ask through a `Prompt` that the
  caller supplies, and the choice of an SSH identity through an
  `Interaction`: the library records each question with its answer, and the
  contracts state the question asked and how its answer is read, not what the
  user will answer. The proof functions state the laws
  that hold across calls.
- `app/` is the `loadbot` program around the library: it reads and writes the
  TOML files, runs Git and the launched programs, and talks to the terminal.
- `tests/` exercises the library on concrete values.
