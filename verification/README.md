# limusic

The logic of a desktop YouTube Music client, written in Verus: every function in `src/`
carries a contract that the verifier proves, and the properties the client relies on across
calls stand as public proof functions (`law_*`).

## Layout

- `src/models/` – the InnerTube data model: a small JSON tree (`json.rs`) and the parsers that
  turn search, next, browse, album, artist, playlist and player responses into songs, cards
  and stream formats, each stated over spec functions of the tree.
- `src/transport.rs`, `src/endpoints.rs`, `src/auth.rs` – the session: cookie jar merging,
  `SAPISIDHASH` authorisation, request headers, visitor data, retry policy, request bodies
  and endpoint paths.
- `src/orchestrator.rs` – stream resolution as a state machine (`Resolver::step`): which
  client to ask, which format to take, when to decipher, validate, self-heal or fall back.
- `src/cipher/` – signature and `n` parameter handling, player-script analysis and the
  player-config table with its refresh cooldown.
- `src/potoken.rs`, `src/videoproxy.rs`, `src/queue.rs`, `src/position.rs`,
  `src/hotkeys.rs`, `src/db.rs`, `src/settings.rs` – proof-of-origin token caching, the
  local video proxy's routing, the play queue and Listen Together decisions, position
  throttling, global hotkeys, cache validity rules, and which settings the UI may see.
- `src/romanize/` – lyric romanisation: script detection, Hangul, pinyin and kana readings.
- `src/codec.rs`, `src/text.rs`, `src/clock.rs` – text and number helpers, and the few
  calls into outside crates, each behind a small trusted wrapper whose contract is stated
  in its doc comment.
- `app/` – the unverified shell: command-line entry point, HTTP, SQLite storage, the
  Japanese morphological analyser, and serde copies of the library's types.
- `tests/` – scenario tests run against the compiled library.
