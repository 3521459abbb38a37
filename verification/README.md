# noalbsgui

The core of a desktop companion for NOALBS (the NGINX/OBS automatic
low-bitrate switcher), written in Verus: the decisions the GUI takes about
noalbs's files, releases, log output and settings are stated in contracts
and proved. What outside crates compute (reading zip and tar archives,
ordering `semver` versions) is called through a few trusted declarations
whose contracts say what those crates do.

## Layout

- `src/` — the verified library.
  - `text.rs` — `str` operations (trim, find, split, lines, join) on
    character sequences, each proved to compute what the standard library
    computes.
  - `env_file.rs` — reading the managed keys of noalbs's `.env` and writing
    them back while every other line stays where it was;
    `env_laws.rs` proves that a write is read back exactly and that other
    lines survive a write.
  - `status.rs` — the dashboard status derived from noalbs's log lines.
  - `process.rs` — the bounded, consecutively numbered log buffer.
  - `binary.rs` — choosing the release asset, reading the version from the
    startup banner, and the update check (through `semver`).
  - `archive.rs` — which member of a downloaded `.tar.gz` or `.zip` is the
    noalbs executable (through `tar`, `flate2` and `zip`), with file names
    split as `Path::file_name` splits them.
  - `fs_path.rs`, `settings.rs` — paths as components, the portable data
    directory, and the GUI's settings.
  - `commands.rs` — where `config.json` and `.env` live, how noalbs is
    launched, what a download records and which update is offered.
  - `config.rs` — the model of noalbs's `config.json`.
  - `error.rs` — the library's error type.
  - `laws.rs` — properties that span several operations.
- `tests/` — tests of the library on concrete values.
- `app/` — the shell: file and network I/O (including unpacking the member
  that the library located), JSON forms of the types, the noalbs child
  process and the commands the window calls.
