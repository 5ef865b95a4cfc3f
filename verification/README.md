# pulse_player

The core of the Pulse music player, verified with Verus.

- `src/` — the verified library:
  - `text` — searching, slicing, decimal formatting and parsing of text;
  - `urlcodec` — percent-encoding of file paths (through `urlencoding`),
    with the proof that decoding undoes encoding;
  - `stream` — the local streaming server's decisions: routing, the `file`
    parameter, `Range` headers, response plans, stream URLs;
  - `paths` — extensions, stems, MIME types and media classification;
  - `metadata` — tag selection, cover images as `data:` URLs (through
    `base64`), track durations (through `symphonia`) and their display;
  - `window` — the mini-window controller as a state machine, with its laws;
  - `config` — the default settings.
- `app/` — the program around it: file and network I/O, probing media files
  with `symphonia` and `id3`, the `tiny_http` server loop, settings on disk.
- `tests/` — tests of the library on concrete values.
