# mux

A tmux session orchestrator. A config names a session, its root directory and
its windows; `mux start <config>` builds the session from it, and the library
can read a running session back into config windows.

- `src/` is the library, verified with Verus:
  - `text`: character-level string handling (trimming, lines, words,
    searching, decimal numbers, string order), each specified against the
    behaviour of the corresponding `str` method;
  - `name_map`: a map from names to values kept in name order;
  - `config`: the config data, the default config and config file paths;
  - `util`: home directory and `~` expansion;
  - `tmux`: the arguments of each tmux command and the reading of tmux's replies;
  - `capture`: reading a running session back into windows;
  - `start`: the steps that build a session from its config.
- `app/` is the command line program: argument parsing, YAML config files,
  environment variables, and running tmux and ps.
- `tests/` runs the library on concrete values.
