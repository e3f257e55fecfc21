# onf

A minimal configuration switcher: profiles of config files are stored under
`<config dir>/onf/profiles/<profile>/<alias>`, applied by linking the stored
copies into place, and restored by copying them back. The store's state lives
in `<config dir>/onf/config.toml`.

- `src/` is the verified library: the profile store and every command's
  effect on it (`config`, `names`, `profile`), the layout of files on disk and
  path handling on the platform's path bytes, with Unix path rules (`paths`), prompt-input parsing (`text`), error messages
  (`error`), and properties across operations (`laws`).
- `app/` is the command-line program: argument parsing, prompts, file
  operations, running hooks, coloured output and the TOML state file.
- `tests/` runs the library on concrete values.
