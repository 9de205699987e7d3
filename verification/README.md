# sportspulse

Live cricket and football scores from the ESPN feeds, as a verified Verus
library with a thin desktop shell around it.

- `src/` — the library, verified by Verus.
  - `json.rs`: the decoded JSON documents as plain values, and their accessors.
  - `text.rs`: character-level text work (trimming, searching, numerals).
  - `batsman.rs`: the dismissed batsman's name in a line of commentary.
  - `cricket.rs`, `soccer.rs`: scoreboards and match summaries into scores.
  - `events.rs`: the latest wicket, boundary, goal or red card of a match.
  - `polling.rs`: which match to follow, where to fetch it, when to poll
    again, and when a result is announced.
  - `menu.rs`: the tray menu's item ids and what choosing one asks for.
  - `models.rs`: scores and events; run rates and overs are kept as the
    numbers they are computed from.
- `tests/` — tests of the library on concrete documents.
- `app/` — the Tauri shell: network fetches, decoding, the shared cache,
  windows, tray and shortcut, and the floating-point rates shown on screen.
