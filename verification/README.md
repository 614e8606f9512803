# kbotop

A terminal viewer of KBO baseball: the day's games, standings, news
headlines and the live play-by-play of a game with its pitches.

The library (`src/`) holds the logic with its contracts, checked by Verus:

- `dateutil`, `localtime` — calendar arithmetic in KST and the display time
  zone (offset settings, TZif zone files).
- `strutil`, `text` — character-level helpers; HTML to text, entity
  unescaping, whitespace and excerpts.
- `naver` — the records of the Naver sports responses and how they become
  games, standings and the live state of a game; the endpoint addresses.
- `rss` — news feeds: dates in their several formats, items of a feed, and
  the merge of all feeds (deduplicated, newest first).
- `model` — games, live state, at-bats, relay lines and pitches.
- `config` — the settings and how they are written back into a TOML file
  without losing unknown keys; the lock taken while saving.
- `poller` — what the background poller fetches when, with backoff.
- `launch` — command-line decisions: language, team alias, date.
- `app` — the screen state and how keys, mouse events and poller updates
  change it, plus the decisions of the screen loop.

`app/` is the program around it: command line, settings file, HTTP, the
poller thread, the terminal and a plain text rendering.
