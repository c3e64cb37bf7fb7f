# magpie

The logic of a chat bot that drives torrent clients (qBittorrent,
Transmission, aria2) from Telegram and Discord, written in Verus: each
function states what it returns in its `requires` / `ensures`, and Verus
proves it.

## Layout

- `src/` — the verified library.
  - `text.rs`: character-level helpers (search, slicing, UTF-8 widths,
    decimal and hexadecimal rendering).
  - `utils.rs`: magnet links, sizes, durations, Markdown escaping,
    percent-encoding.
  - `i18n.rs`: translation tables, fallback to English, placeholders.
  - `config.rs`: the settings, their defaults and the strings built from them.
  - `bot.rs`, `messages.rs`, `views.rs`, `keyboards.rs`: who a user is and
    what the user may do, which action a button or message asks for, and
    every text and keyboard the bots send.
  - `tasks.rs`: who hears of a finished download, seeding after download,
    progress milestones.
  - `mock_client.rs`: the state machine of the mock torrent client.
  - `redis_client.rs`: the in-memory key-value store with expiries.
  - `clients.rs`: what the qBittorrent, Transmission and aria2 adapters
    decide apart from their HTTP calls.
  - `db.rs`, `links.rs`, `server.rs`, `pages.rs`: the database decisions,
    download links, byte ranges and content types, and the download pages.
  - `laws.rs`: properties that relate several operations, proved.
- `tests/` — tests on concrete values.
- `app/` — `magpie-cli`, the command-line tool: reading `data/config.yml`,
  the HTTP clients, the mock client's state file, and the SQLite and Redis
  stores.
