# stream_recorder

A recorder that saves video streams from security cameras to disk, with a
verified core.

- `src/` is the library, checked by Verus:
  - `config.rs`: settings, their defaults, overrides from the process
    environment, the single-stream legacy form, per-stream directories;
  - `recorder.rs`: recording state and statistics of every stream, and the
    decisions of starting and stopping them;
  - `retry.rs`: the retry budget and the doubling wait between attempts;
  - `session.rs`: FFmpeg input options, segment paths and bookkeeping, and the
    errors a recording session reports;
  - `storage.rs`: disk figures, the oldest-first cleanup order, cleanup runs,
    and what a stream's directory holds;
  - `api.rs`: bodies and answers of the HTTP API;
  - `text.rs`, `path.rs`, `timefmt.rs`, `error.rs`: text, Unix paths, calendar
    texts and errors.
- `app/` is the program around it: reading files and the environment, the
  clock, FFmpeg, tokio tasks, the axum server, and the floating-point disk
  usage threshold.
- `tests/` runs the library on concrete values.
