# noah

A helper for NixOS: it rebuilds and activates configurations, rolls back
generations, lists them, searches packages and options on search.nixos.org,
and cleans old generations and garbage-collector roots.

## Layout

- `src/` is the library, verified with Verus. It holds the decisions of the
  commands: how targets and installables are resolved, what `nix` is asked to
  run, how privileges are elevated, which generations and roots a clean
  removes, how search results and generation tables are laid out, and the
  remote build and activation steps. Each public function states its result
  in its contract; the public `lemma_*` proof functions state the laws that
  tie functions together.
- `src/` calls `regex`, `shlex`, `which`, `humantime`, `textwrap` and
  `serde_json` through small trusted wrappers whose contracts say what those
  crates do.
- `app/` is the program around the library: the command line (`bpaf`),
  reading the file system, running processes, prompting, and printing.
- `tests/` exercises the library on concrete values.
