# plexus-music

A music player library: playback queue and transport state machine, shuffle
radio mode, listening statistics, playlists, catalog response decoding, LRC
lyrics, request paths and query encoding, audio-proxy failure answers, and the
acknowledgements the RPC surface reports. The functions in `src/` are written
in Verus and their contracts are proved by Verus, except a few small trusted
wrappers whose contracts are assumed: `text::push_char` (`String::push`),
`config::path_join` (`Path::join`), the base64 decoding and JSON parsing of
stream manifests and the texts of their errors in `catalog`. Each says in its
doc comment what it claims of the outside call. The laws that relate several
functions (skipping back undoes skipping forward, removing the track just
added undoes the addition, a saved queue replays in order, a track that plays to the end is
recorded and the next one starts, shuffle picks do
not repeat before the pool is exhausted, a written LRC timestamp reads back,
and others) are public proof functions next to the code they speak of.

Layout:

- `src/` — the verified library (`plexus_music`).
  - `playback` — queue, current track, status, history, listen sessions.
  - `shuffle` — the shuffle pool.
  - `stats` — per-track statistics and the listen log.
  - `playlist` — playlist data and its edits.
  - `catalog`, `lyrics`, `urls` — decoding catalog answers, lyrics, paths.
  - `queueing` — queue entries from catalog answers and request defaults.
  - `acks`, `sanity`, `proxy` — what requests report back.
  - `peaks`, `progress`, `config`, `text`, `types`.
- `tests/` — tests of the library on concrete values.
- `app/` — the server around the library: HTTP client, SQLite storage, audio
  output, the audio proxy, RPC activations, startup, and the tray app.
