# covenant-setup

A Windows installer builder and install engine. A developer-authored
`install.toml` is packaged into a single installer executable; installing
journals every applied mutation, and uninstalling undoes the journal in
reverse order and purges the declared namespaces.

## Layout

- `src/` — the verified library (Verus). It holds the engine's decisions and
  formats, each with a contract and the laws that relate them:
  - `manifest`, `paths`, `resolver`, `registry`, `text`: manifest rules,
    Windows path handling, known-folder expansion, the administrator-root
    check, registry key parsing.
  - `install`, `journal`: the install plan, the session that journals exactly
    the steps that succeeded, elevation and failure decisions.
  - `uninstall`: the uninstall plan (undo last-first, purge, deregister), the
    closing and the cleanup helper.
  - `bundle`, `ui_bundle`: the payload appended to the installer and the UI
    helper bundle, with their round-trip laws.
  - `cmdline`, `wide`: `CommandLineToArgvW` quoting and UTF-16, with their
    round-trip laws.
  - `session`, `ui`, `cli`, `error`, `elevation`, `restart_manager`: the
    helper pipe protocol, prompts, dispatch, exit codes and the decisions
    around Win32 queries.
- `app/` — the program around the library: argument parsing, file system,
  registry, shell links, processes, the named pipe and the terminal.
- `tests/` — tests of the library on concrete values.
