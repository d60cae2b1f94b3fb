# bashcap

Record what a bash shell held at a marked point, and read it back.

A script marks the point with `BASHCAP [-BCV:<name>]... [-BCS:<note>]...`, or
wraps a call with `WITH_BASHCAP ... <command>`. Run under capture, each call
sends one snapshot — the call stack, the named variables with their
attributes, `BASH_REMATCH`, the notes — and the tool writes one JSON object
per line.

## Layout

- `src/` — the library, verified with Verus:
  - `instrument.rs` — the bash the shells source: the words, their effect,
    the switch that records call arguments, and the joining line;
  - `shipped.rs` — the proof that none of that bash exports a name;
  - `declaration.rs` — `declare -aX name=rhs` read back into its three parts,
    with the proof that what bash prints reads back whole;
  - `snapshot.rs` — the record and its decoder, specified section by section;
  - `show.rs` — the one rendering of a capture, and of a run's captures;
  - `entries.rs`, `text.rs` — ordered maps and character scanning, as
    specifications and the code proved against them;
  - `outside.rs` — every item taken on trust from `bash-interop`,
    `bash-strings`, `indexmap` and `std`, each with what it claims.
- `app/` — the `bashcap` program: the command line, the session, the JSON
  file and reading it back.
- `tests/` — decoding without a shell, and against real shells.
