# nexus_tui

A terminal client for browsing and streaming anime from AllAnime, with a
local watch history, cover art, AniSkip intro/outro skipping and an
interactive settings tab. The decisions the program makes are a library
verified with Verus; the terminal, the network, the database and the player
are a thin program around it.

## Layout

- `src/` — the verified library.
  - `text.rs` — character-sequence helpers and their specifications
    (search, split, trim, decimal numbers, lower-casing).
  - `json.rs` — a JSON value model and lookups over it.
  - `api/` — AllAnime items, the cleaning of raw records, the GraphQL
    variables sent.
  - `net.rs` — URL building and percent-encoding, challenge-page detection,
    JSON extraction from HTML, and the fetch tiers as a state machine.
  - `player/` — source deciphering (hex and AES-CTR payloads), provider
    and link extraction, playlist parsing, quality selection, and the mpv
    argument and resume helpers.
  - `app/` — the interface state: tabs, panes, keys, background results,
    the LRU caches, toasts, the spinner, the history filter, and the
    settings tab.
  - `config.rs` — the configuration, its defaults and the color themes.
  - `ui.rs` — layout arithmetic for the grids, the color picker and the
    palette.
  - `history.rs` — history bookkeeping.
- `app/` — the program: terminal setup and drawing, HTTP and the
  FlareSolverr fallback, the SQLite history store, and mpv with its IPC
  position tracking.
- `tests/` — tests of the library.

The program needs `mpv` on the path to play episodes.

## Keys

| Key | Action |
|-----|--------|
| `F1` / `F2` / `F3` | Anime, History and Settings tabs |
| `/` | Search bar |
| `Ctrl+C`, `q` | Quit |
| `j`/`k`, arrows | Move |
| `g` / `G` | First / last result |
| `Ctrl+N` | Next page of results |
| `Ctrl`+arrows | Move between panes |
| `p` | Episode prompt |
| `Tab` (prompt) | Sub / dub |
| `Ctrl+Q` (prompt) | Quality: best, 1080, 720, 480 |
| letters (history) | Fuzzy filter |
| `Delete`, `d` with no filter (history) | Remove the entry |
| `h`/`l`, `←`/`→` (settings) | Change a value |
| `Enter` (settings) | Type a value, add a color, reset |
| `Ctrl+←`, `Esc` (settings) | Back to the categories |
