# simple_ssh_tui

A terminal front end for the hosts of `~/.ssh/config`: pick a host to open
an `ssh` session, or switch to a transfer screen that copies files with
`rsync` over a shared `ssh` control connection, with path completion for the
local and the remote side.

- `src/` is the library, with specifications and proofs: reading the SSH configuration
  (`ssh_config`), the application state and what each key action and each
  message of a background worker does to it (`app`, `actions`, `events`),
  the command lines of `ssh` and `rsync` and the meaning of their output
  (`ssh_operations`), the texts of the screen (`ui`), and the character-level
  text handling they share (`text`).
- `app/` is the program around it: the terminal, drawing with ratatui, key
  events from crossterm, processes, threads, pseudo-terminals and the file
  system.
- `tests/` runs the library on concrete inputs.
