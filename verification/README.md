# Scrobcord

Shows the track that Last.fm reports as playing now in Discord Rich
Presence. This crate is the verified core of the desktop application; the
desktop shell (windows, tray, plugins, network and socket I/O) is in `app/`.

## Layout

- `src/text.rs` — character-level string helpers: Unicode whitespace
  trimming, prefixes, splitting, placeholder replacement, decimal parsing and
  printing, each with the specification of the `std` operation it stands for.
- `src/models.rs` — settings (with their defaults), tracks, the history page,
  connection states, the Last.fm session and update information, with views.
- `src/discord_rpc.rs` — the Discord IPC protocol without I/O: frame encoding
  and header checks, the field rules of Rich Presence (2–128 characters, URLs
  up to 512, never cut), the activity built from a track and the settings, the
  client's connection state and nonces, and the state machine that waits for
  READY or for a command's answer.
- `src/lastfm.rs` — Last.fm requests: parameters kept in key order, signatures
  (MD5 through the `md5` crate, hex printed here), the query of each method,
  and the interpretation of the JSON answers handed over as plain values.
- `src/poller.rs` — the decisions of the polling loop: the user to poll, track
  changes, when the activity is cleared, and the steps of a Discord update.
- `src/state.rs` — the application state as plain values and what each command
  does to it (authorisation, logout, reset, status checks).
- `src/updater.rs` — version comparison and the interpretation of the GitHub
  Releases answer; the check on release-page URLs.
- `src/tray.rs` — the tray menu's labels.
- `app/` — the Tauri application around the library.

The proofs run with `verus`; the laws of the library are the `lemma_*` proof
functions beside the functions they speak of.
