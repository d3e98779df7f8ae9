# srg-core

The rules core of an SRG Supershow match engine, written in Rust and proved with Verus.

- `src/` is the library. Every function states in its contract what it returns, and
  Verus proves it.
  - `ir.rs`: the effect language that cards are written in.
  - `skills.rs`, `ratio.rs`, `finish.rs`, `face_laws.rs`, `finish_laws.rs`: the exact odds
    that a finish holds, and how these odds move with stats, bonuses, penalties, attempts,
    the Crowd Meter and a re-roll.
  - `gamelog.rs`, `gamelog_laws.rs`: the log of a match. Each record has a canonical
    JSON line; logs match exactly where their canonical forms are equal; and the file
    of a log tells it from every log that does not match it.
  - `json.rs`, `json_laws.rs`, `lines.rs`, `text.rs`, `textmap.rs`: JSON values and their
    text, line files, decimal numbers, ordered maps with text keys.
  - `engine.rs`: the order of a turn roll, and how long a gimmick stays blank.
  - `session.rs`, `error.rs`: the steps of a resumable match, and the errors.
- `app/` is the command line around it: arguments, files, the reading of JSON, and the
  JSON form of the effect language.
- `tests/` runs the library on concrete values.

What is taken on trust is the arithmetic of `num-rational` (in `ratio.rs`), the string
writer of `serde_json` (in `json.rs`), `String::push` (in `lines.rs`) and the `{:?}` form
of a text (in `ir.rs`). The contracts there say what is claimed of each.
