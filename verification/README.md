# smabrog

A battle recorder for a fighting game, as a verified library: the recorder
follows the game's scenes in captured frames, reads the rules, characters,
stocks, placings and powers from recognised text, and keeps one record per
battle, with win statistics over the stored records.

Every function in `src/` is checked by Verus against its contract, except
the six `#[verifier::external_body]` functions that make the calls into
other crates and std (the clock, the reading of a stored time, the random
draw, the two regular-expression calls and `i32::from_ne_bytes`): their contracts are believed, and each one's
doc comment says what it claims.

- `guesser` — guessing a value from repeated noisy observations.
- `data` — the battle record and its rules (time limits, stock limits,
  placings, stocks).
- `parse`, `textmatch`, `reading` — what recognised text says, counted into
  the record.
- `stats` — wins and counted battles, by opponent character.
- `scene` — which scene follows which, and what a scene change does to the
  records.
- `frame_store` — recording a scene to a video file and replaying it.
- `capture` — cutting the game's area out of captured frames; capture
  sources; the video codec choice.
- `stored` — reading a stored record back and the values it is stored with.
- `clock` — the wall clock and stored time texts.
- `engine` — when the history views are read again.
- `sound`, `wasapi`, `style` — background music choice, the audio layer's
  plain values, the window's pane colours and shortened captions.

`tests/` holds the tests; `app/` is a small command-line front that reads
stored records from a JSON file and prints the statistics.
