# quran_tui

A terminal Quran audio player. The decisions it makes are a library verified
with Verus; the terminal, audio, network and file handling sit around it.

## Layout

- `src/` — the verified library.
  - `domain/` — the surah/reciter catalog, range segmentation, file slugs and
    verse text lookup.
  - `content/` — resolving a selection to local files and per-ayah URLs, and
    the download bookkeeping.
  - `model/` — playlists and the per-output playback status.
  - `playback.rs` — what starting playback or a playlist does, given which
    files exist.
  - `app.rs`, `app/` — tab, field and cursor state; the Browse, Outputs and
    Playlists key handling; modal dialogs.
  - `audio/` — the engine's bookkeeping as a step function from command or
    tick to sink operations and reported events; device labels.
  - `daemon/` — length-prefixed framing and the session handshake between a
    background daemon and its client.
  - `ui/` — every piece of text the interface shows.
- `tests/` — tests of the library on concrete values.
- `app/` — the program: argument parsing, the terminal loop, drawing with
  ratatui, the audio engine thread, downloads, the daemon socket and media
  keys. It hands the library plain values and acts on what comes back.

The surah catalog is read at start-up from `assets/quran-catalog.json`, next to
the executable or in the working directory.
