# subtitle_overlay_desktop

The verified core of a desktop subtitle overlay: it receives live subtitles from a
translation server as server-sent events and shows them in a transparent,
always-on-top window.

- `src/` — the library, verified with Verus:
  - `text` — white space, trimming and prefixes on characters;
  - `model` — subtitle entries, overlay bounds, settings, runtime state;
  - `settings` — normalisation of the server address, font family and ranges;
  - `fonts` — the sorted list of font families offered;
  - `subtitles` — the subtitle buffer (revisions, newest entries kept);
  - `sse` — the event-stream decoder;
  - `json`, `events` — what the server's payloads mean;
  - `endpoint` — endpoint URLs;
  - `runtime` — runtime-state transitions, the log, the reconnection back-off;
  - `overlay` — decisions of the native overlay window.
- `tests/` — tests of the library.
- `app/` — the Tauri/GTK program around the library (windows, HTTP, files).
