# reedcms

The command-line core of ReedCMS as a verified library: pipe-delimited CSV
records and files, command parsing, routing and help, the data, layout,
user, role, taxonomy, migration, validation, configuration, server, backup,
debug and build commands, and the build helpers (versions, change
detection, content hashes and cache busting, pipeline stages, packaging
names).

- `src/` is the library. Every function carries a contract that Verus
  proves; the laws that relate several functions (CSV round trips, read
  after write, version compatibility, migrations importing only new
  entries, permission and role edits, ...) are public proof functions.
  Calls into `sha2`, `md5` and `serde_json` and into std's clock and
  character tables go through a few trusted wrappers, each documented where
  it stands.
- `app/` holds what the library cannot: files and directories, processes
  (`cargo`, `kill`, `ps`, `upx`), environment variables, the Reed.toml
  decoder (`toml`, `serde`), JSON files, the file watcher (`notify`,
  `chrono`) and release archives (`tar`, `flate2`). It hands the library
  plain values and acts on what the library decides.
- `tests/` runs the library on concrete inputs.

Verify with Verus on `src/lib.rs`; the tests and `app/` build with cargo
against the library.
