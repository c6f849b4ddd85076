# flotilla

A terminal dashboard for development workspaces: one tab per git repository, with its worktrees,
pull requests, sessions and issues.

- `src/` decides: which repositories to open, what an event does, the steps of an action, what a
  refresh changes, what zellij said, which providers are in use. It is written in Verus, and its
  contracts are proved.
- `app/` reads, draws and runs commands. It hands plain values to the library and does what the
  library says.
- `tests/` runs the library on concrete values.

What is taken on trust stands in five small functions and one type declaration:
`text::decode_lossy` (`String::from_utf8_lossy`), `places::config_dir` and `places::home_dir` (of
`dirs`), and in `registry` the type `IndexMap` with its `new` and `insert`.

The configuration lies in `flotilla/` below `~/.config` or `$XDG_CONFIG_HOME`. Its file
`providers.toml` may name providers that replace detected ones.

The command that starts a coding agent comes from `--agent`, or else from `FLOTILLA_AGENT`:

    flotilla [--agent <COMMAND>] [--repo-root <PATH>]...
