# opengoose

OpenGoose runs several Goose coding agents at once: agents pull work from a
shared board, a terminal UI and a web dashboard show the board, the rigs and
the logs, and an evolver turns low-scored work into skills.

This crate holds the decision logic of the `opengoose` command as a library
verified with Verus, and the program around it.

- `src/` is the verified library. Every public function states what it
  returns or changes in its `requires` / `ensures`, over spec functions on
  `Seq`, `Map` and integers. Functions named `law_*` are proof functions
  that state properties spanning several calls (what a key undoes, what a
  registry keeps, which skill wins a name).
  - `key_command`, `keys`, `tui_app`, `tui_event`, `panels`, `commands`:
    the terminal UI as a state machine and the text of its panels.
  - `skills_load`, `frontmatter`, `discover`, `lock`, `source`, `evolver`:
    skills: scan order, which skill of a name wins, the catalog, SKILL.md
    frontmatter, the lock file edits, git sources, and the evolver's
    decisions.
  - `board_cli`, `cli`, `logs`, `session_logs`, `web`, `workers`,
    `agent_stream`, `sandbox`, `paths`, `text`: command output, request
    validation, worker bookkeeping, path and string helpers.
- `app/` is the program: argument parsing, the terminal, the web server, the
  board database, the agents, and file I/O. It calls the library for every
  decision.
- `tests/` runs the library on concrete inputs.

Calls into `chrono` and `unicode-width` are made from the library through
small trusted wrappers whose contracts are stated next to them.
