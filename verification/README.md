# fde

A file finder in the manner of `fd` that answers from the Everything index
on Windows where it can, and walks the file system where it cannot.

## Layout

- `src/` — the verified library (Verus):
  - `scan/backend/everything/` — what a search becomes: the translation of
    a pattern (regex, glob, fixed string) into an index query or the reason
    it cannot be one, the query string per root, the per-result conversion
    into a hit, SDK error codes, and the choice of backend per root.
  - `scan/post_filter/` — the filter chain every index hit goes through
    (depth, type, extension, size, time, hidden, exclude, prune,
    max-results, ignore files), the pipeline that runs it, and the ignore
    file semantics: which rule of which file decides for a hit.
  - `scan/receiver.rs`, `scan/dispatch.rs`, `scan/legacy.rs` — the
    decisions of the receiver (buffer or stream, when to stop), of the
    per-root dispatch, and of the file-system walker's checks.
  - `scan/path_projection.rs`, `winpath.rs` — Windows path text as
    components, and how a hit is printed relative to its search root.
  - `filter.rs`, `text.rs` — size and time limits, durations, and text
    helpers.
- `tests/` — tests of the library, run against the real outside crates.
- `app/` — the program around it: the Everything SDK bindings, the
  file-system walker, ignore files on disk, threads, channels and the
  terminal.
