# Wavora

The domain logic of Wavora, a local-first music player, written in Verus and
proved against its contracts: track and playlist identity, the playback
queue, the lyrics format and its validation, localization tables, persisted
state, `file://` locators, and the rules by which media scanning and the
catalog decide what a file is.

## Layout

- `src/` — the verified library. Each module states its model in spec
  functions; public proof functions state the laws that span several calls
  (a shuffle cycle visits every position once, a file URI locates its path
  again, a fingerprint survives its stored form, and so on).
- `tests/` — executable checks on concrete values.
- `app/` — the command-line program around the library: configuration files,
  the SQLite catalog, directory walking, decoding and fingerprinting, and the
  terminal output.
