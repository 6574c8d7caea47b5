# capture_agent

A passive window capture agent: it records one window (or a synthetic test
pattern) into H.264/Matroska video segments and keeps a JSON job record of
what it wrote.

## Layout

- `src/` is the verified library. Every function there carries a Verus
  contract that states what it returns or changes:
  - `protocol` — the job documents (metadata, events, leases, window
    candidates);
  - `runner` — option and frame checks, the job metadata, segment naming
    and the capture run as a state machine that appends to the events
    document;
  - `test_pattern` — the deterministic test pattern, specified pixel by
    pixel;
  - `pixels`, `encoding`, `thumbnail` — pixel layouts, encoder settings
    and window thumbnails;
  - `window_list`, `platform`, `registry`, `launcher` — window listings,
    native targets, agent leases and the launcher's decisions;
  - `cli`, `settings`, `packaging` — the command-line programs' decisions,
    small text settings and the build tasks;
  - `text`, `ordering` — text and sorting helpers with their laws.
- `tests/` exercises the library on concrete values.
- `app/` is the program around the library: command-line parsing, files,
  the X11 connection, the GStreamer encoder process and the JSON forms of
  the documents.
