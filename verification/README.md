# SpiritVale overlay catalog library

The catalog logic of a read-only desktop companion for the SpiritVale game
database, written in Verus. `src/` holds the verified library:

- `chars`: character-sequence operations (replace, trim, ASCII lowercase,
  join, decimal rendering) with their specifications.
- `markup`: cleanup of record text and extraction of the page data
  attribute, on top of `regex`.
- `json`: the JSON values the pages carry, and member and JSON-pointer lookups.
- `fields`: the display text taken from a record (names, numbers, stat lists,
  locations, drops, monsters, skill values).
- `index`, `sources`: the drop index and the location index.
- `catalog`: catalog entries built from a page's records.
- `sync`: assembling the catalog from all pages, live and cached answers,
  the sync time.
- `window`: window size presets and the minimize/restore shortcut.
- `laws`: properties of the library as a whole, as proof functions.

`app/` is the desktop program around it: HTTP fetching, JSON parsing,
files, and the Tauri window.
