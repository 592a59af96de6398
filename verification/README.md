# rust_rss_reader

The core of a desktop feed reader, written in Verus: each function of the
library states what it does in `requires`/`ensures`, and Verus proves it.

## Layout

- `src/` — the verified library.
  - Text and markup: `text`, `markup`, `content`, `reader` (HTML to
    displayable parts), `timefmt`.
  - Feeds: `syndication` (RSS, Atom and OPML documents, decoding fetched
    bodies), `opml_import`, `feeds` (subscriptions and groups), `updates`
    (automatic refresh, retries, the fetched-feed cache), `export` (OPML of
    the store, SQL dump text), `startup` (the first start).
  - Articles: `models`, `order` (stable sorting), `search` (the inverted
    index), `search_cache` (the index with its cache of recent results),
    `sidebar`, `store_rules` (what is stored and kept).
  - The window: `ui_state`, `ui_apply`, `ui_update` (how each background
    message changes the window's state and what work it asks for), `tray`,
    `notify`.
  - The assistant: `ai_client` (messages, history trimming, token
    estimates, streamed replies).
  - Settings and secrets: `config`, `crypto`, `cache_manager`, `ids`.
  - `laws` — properties that relate several operations.
- `tests/` — tests run against the compiled library.
- `app/` — a command-line program around the library: files, network,
  terminal, and the floating-point relevance ranking.
